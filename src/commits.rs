use crate::callgraph::prefixed_lines;
use crate::extract::{is_fresh_chunk, new_chunk, store_chunk, ExtractError};
use crate::json::{json_array, json_quoted, push_json_array, push_json_string, texts};
use crate::hashing::sha256_hex;
use crate::store::{
    chunk_growth, holds_linked, lemma_growth_refl, lemma_growth_trans, lemma_upsert_all_push, store_wf,
    upsert_all, upsert_chunk_spec, upsert_successes, ChunkStore, StoreError,
};
use crate::text::{decimal, push_decimal, push_str, string_of};
use crate::types::{Chunk, ChunkType};
use chrono::DateTime;
use vstd::prelude::*;

verus! {

/// The default number of commits indexed.
pub const DEFAULT_MAX_COMMITS: usize = 100;

/// One commit as read from the repository. `time` is in seconds since the
/// Unix epoch.
pub struct CommitInfo {
    pub id: String,
    pub author_name: String,
    pub author_email: String,
    pub time: i64,
    pub message: String,
    pub files_modified: Vec<String>,
    pub insertions: usize,
    pub deletions: usize,
}

/// chrono's display of the UTC instant `secs` seconds after the epoch
/// (`YYYY-MM-DD HH:MM:SS UTC`).
pub uninterp spec fn utc_text(secs: int) -> Seq<char>;

/// chrono's RFC 3339 form of the UTC instant `secs` seconds after the epoch,
/// as its serde support writes it.
pub uninterp spec fn utc_rfc3339(secs: int) -> Seq<char>;

/// The instants, in seconds from the epoch, that chrono can represent
/// whatever the rest of the date (its years run from -262143 to 262142).
pub open spec fn in_chrono_range(secs: int) -> bool {
    -8_000_000_000_000 <= secs <= 8_000_000_000_000
}

/// Relies on `chrono::DateTime::from_timestamp` and its `Display`; `None`
/// only when the instant is out of chrono's range.
#[verifier::external_body]
fn display_utc(secs: i64) -> (r: Option<String>)
    ensures
        match r {
            Some(t) => t@ == utc_text(secs as int),
            None => !in_chrono_range(secs as int),
        },
{
    DateTime::from_timestamp(secs, 0).map(|d| d.to_string())
}

/// Relies on `chrono::DateTime::from_timestamp` and `to_rfc3339_opts` with
/// automatic sub-second digits and a `Z` offset; `None` when the instant is
/// out of chrono's range.
#[verifier::external_body]
fn rfc3339_utc(secs: i64) -> (r: Option<String>)
    ensures
        match r {
            Some(t) => t@ == utc_rfc3339(secs as int),
            None => !in_chrono_range(secs as int),
        },
{
    DateTime::from_timestamp(secs, 0).map(|d| d.to_rfc3339_opts(chrono::SecondsFormat::AutoSi, true))
}

/// The commit-history document of one commit.
pub open spec fn commit_text(
    id: Seq<char>,
    author: Seq<char>,
    email: Seq<char>,
    date: Seq<char>,
    message: Seq<char>,
    files: Seq<Seq<char>>,
) -> Seq<char> {
    "Commit: "@ + id + "\n"@ + "Author: "@ + author + " <"@ + email + ">\n"@ + "Date: "@ + date
        + "\n\n"@ + "Message:\n"@ + message + "\n\n"@ + "Files Modified ("@ + decimal(files.len())
        + "):\n"@ + prefixed_lines("  - "@, files)
}

/// The commit metadata object.
pub open spec fn commit_metadata_text(
    id: Seq<char>,
    author: Seq<char>,
    email: Seq<char>,
    date: Seq<char>,
    files: Seq<Seq<char>>,
    insertions: nat,
    deletions: nat,
) -> Seq<char> {
    "{\"commit_hash\":"@ + json_quoted(id) + ",\"author\":"@ + json_quoted(author)
        + ",\"author_email\":"@ + json_quoted(email) + ",\"commit_date\":\""@ + date + "\""@
        + ",\"files_modified\":"@ + json_array(files) + ",\"insertions\":"@ + decimal(insertions)
        + ",\"deletions\":"@ + decimal(deletions) + "}"@
}

/// Renders the commit-history document.
pub fn render_commit(info: &CommitInfo, date: &str) -> (r: String)
    ensures
        r@ == commit_text(
            info.id@,
            info.author_name@,
            info.author_email@,
            date@,
            info.message@,
            texts(info.files_modified@),
        ),
{
    let mut out: Vec<char> = Vec::new();
    push_str(&mut out, "Commit: ");
    push_str(&mut out, info.id.as_str());
    push_str(&mut out, "\n");
    push_str(&mut out, "Author: ");
    push_str(&mut out, info.author_name.as_str());
    push_str(&mut out, " <");
    push_str(&mut out, info.author_email.as_str());
    push_str(&mut out, ">\n");
    push_str(&mut out, "Date: ");
    push_str(&mut out, date);
    push_str(&mut out, "\n\n");
    push_str(&mut out, "Message:\n");
    push_str(&mut out, info.message.as_str());
    push_str(&mut out, "\n\n");
    push_str(&mut out, "Files Modified (");
    push_decimal(&mut out, info.files_modified.len() as u64);
    push_str(&mut out, "):\n");
    let ghost head = out@;
    let files = &info.files_modified;
    let mut i: usize = 0;
    while i < files.len()
        invariant
            0 <= i <= files@.len(),
            out@ == head + prefixed_lines("  - "@, texts(files@).take(i as int)),
        decreases files@.len() - i,
    {
        push_str(&mut out, "  - ");
        push_str(&mut out, files[i].as_str());
        push_str(&mut out, "\n");
        proof {
            let t = texts(files@);
            assert(t.take(i + 1).drop_last() =~= t.take(i as int));
            assert(t.take(i + 1).last() == files@[i as int]@);
            assert(out@ =~= head + prefixed_lines("  - "@, t.take(i + 1)));
        }
        i = i + 1;
    }
    assert(texts(files@).take(i as int) =~= texts(files@));
    assert(out@ =~= commit_text(
        info.id@,
        info.author_name@,
        info.author_email@,
        date@,
        info.message@,
        texts(info.files_modified@),
    ));
    string_of(&out)
}

/// Renders the commit metadata.
pub fn render_commit_metadata(info: &CommitInfo, date: &str) -> (r: String)
    ensures
        r@ == commit_metadata_text(
            info.id@,
            info.author_name@,
            info.author_email@,
            date@,
            texts(info.files_modified@),
            info.insertions as nat,
            info.deletions as nat,
        ),
{
    let mut out: Vec<char> = Vec::new();
    push_str(&mut out, "{\"commit_hash\":");
    push_json_string(&mut out, info.id.as_str());
    push_str(&mut out, ",\"author\":");
    push_json_string(&mut out, info.author_name.as_str());
    push_str(&mut out, ",\"author_email\":");
    push_json_string(&mut out, info.author_email.as_str());
    push_str(&mut out, ",\"commit_date\":\"");
    push_str(&mut out, date);
    push_str(&mut out, "\"");
    push_str(&mut out, ",\"files_modified\":");
    push_json_array(&mut out, &info.files_modified);
    push_str(&mut out, ",\"insertions\":");
    push_decimal(&mut out, info.insertions as u64);
    push_str(&mut out, ",\"deletions\":");
    push_decimal(&mut out, info.deletions as u64);
    push_str(&mut out, "}");
    assert(out@ =~= commit_metadata_text(
        info.id@,
        info.author_name@,
        info.author_email@,
        date@,
        texts(info.files_modified@),
        info.insertions as nat,
        info.deletions as nat,
    ));
    string_of(&out)
}

/// `now` (milliseconds since the epoch) in whole seconds; the epoch itself
/// for an earlier instant. A commit whose own time chrono cannot represent
/// is dated at this instant.
pub open spec fn fallback_seconds(now: i64) -> int {
    if now >= 0 {
        now / 1000
    } else {
        0
    }
}

/// Emits the `commit_history` chunk of one commit, with the commit id as
/// its entity name.
pub fn generate_commit_chunk(
    store: &mut ChunkStore,
    project_path: &str,
    info: &CommitInfo,
    now: i64,
) -> (r: Result<usize, ExtractError>)
    requires
        store_wf(old(store)@),
    ensures
        store_wf(final(store)@),
        chunk_growth(old(store)@, final(store)@, None, 1),
        r is Err ==> final(store)@ == old(store)@,
        r is Err ==> r == Err::<usize, ExtractError>(ExtractError::DateOutOfRange) || r == Err::<
            usize,
            ExtractError,
        >(ExtractError::Store(StoreError::IdsExhausted)),
        old(store).next_chunk_id < i64::MAX && in_chrono_range(info.time as int) ==> r is Ok,
        r != Err::<usize, ExtractError>(ExtractError::DateOutOfRange) ==> exists|c: Chunk|
            is_commit_chunk(c, project_path@, *info, now) && final(store)@ == upsert_chunk_spec(old(store)@, c, None, now).0 && (r is Ok ==> holds_linked(final(store)@.chunks, c.content_hash@, None)) && match upsert_chunk_spec(
                old(store)@,
                c,
                None,
                now,
            ).1 {
                Ok(_) => r == Ok::<usize, ExtractError>(1),
                Err(e) => r == Err::<usize, ExtractError>(ExtractError::Store(e)),
            },
{
    let (secs, shown, iso) = match (display_utc(info.time), rfc3339_utc(info.time)) {
        (Some(a), Some(b)) => (info.time, a, b),
        _ => {
            let fallback: i64 = if now >= 0 {
                now / 1000
            } else {
                0
            };
            match (display_utc(fallback), rfc3339_utc(fallback)) {
                (Some(a), Some(b)) => (fallback, a, b),
                _ => {
                    return Err(ExtractError::DateOutOfRange);
                },
            }
        },
    };
    let text = render_commit(info, shown.as_str());
    let metadata = render_commit_metadata(info, iso.as_str());
    let chunk = new_chunk(
        project_path,
        ChunkType::CommitHistory,
        None,
        Some(info.id.clone()),
        text,
        Some(metadata),
        now,
    );
    assert(is_fresh_chunk(
        chunk,
        project_path@,
        ChunkType::CommitHistory,
        None,
        Some(info.id@),
        commit_text(
            info.id@,
            info.author_name@,
            info.author_email@,
            utc_text(secs as int),
            info.message@,
            texts(info.files_modified@),
        ),
        Some(
            commit_metadata_text(
                info.id@,
                info.author_name@,
                info.author_email@,
                utc_rfc3339(secs as int),
                texts(info.files_modified@),
                info.insertions as nat,
                info.deletions as nat,
            ),
        ),
    ));
    assert(is_commit_chunk(chunk, project_path@, *info, now));
    match store_chunk(store, &chunk, None, now) {
        Ok(_) => Ok(1),
        Err(e) => Err(e),
    }
}

/// A row holds the digest of the commit's document, dated at its own time
/// when chrono can show it (else at the fallback instant).
pub open spec fn commit_row(rows: Seq<Chunk>, info: CommitInfo, now: i64) -> bool {
    exists|secs: int|
        (in_chrono_range(info.time as int) ==> secs == info.time) && (secs == info.time || secs
            == fallback_seconds(now)) && holds_linked(
            rows,
            sha256_hex(
                commit_text(
                    info.id@,
                    info.author_name@,
                    info.author_email@,
                    utc_text(secs),
                    info.message@,
                    texts(info.files_modified@),
                ),
            ),
            None,
        )
}

/// `c` is the fresh `commit_history` chunk of `info`: its document and
/// metadata, dated at the commit's own time when chrono can show it (else at
/// the fallback instant), the commit id as entity name and no file path.
pub open spec fn is_commit_chunk(c: Chunk, project: Seq<char>, info: CommitInfo, now: i64) -> bool {
    exists|secs: int|
        (in_chrono_range(info.time as int) ==> secs == info.time) && (secs == info.time || secs
            == fallback_seconds(now)) && is_fresh_chunk(
            c,
            project,
            ChunkType::CommitHistory,
            None,
            Some(info.id@),
            commit_text(
                info.id@,
                info.author_name@,
                info.author_email@,
                utc_text(secs),
                info.message@,
                texts(info.files_modified@),
            ),
            Some(
                commit_metadata_text(
                    info.id@,
                    info.author_name@,
                    info.author_email@,
                    utc_rfc3339(secs),
                    texts(info.files_modified@),
                    info.insertions as nat,
                    info.deletions as nat,
                ),
            ),
        )
}

/// The number of commits a pass indexes: `max_commits`, or the default.
pub open spec fn commit_limit(max_commits: Option<usize>) -> nat {
    match max_commits {
        Some(m) => m as nat,
        None => DEFAULT_MAX_COMMITS as nat,
    }
}

/// How many of `commits` a pass with `max_commits` takes.
pub open spec fn commits_taken(commits: Seq<CommitInfo>, max_commits: Option<usize>) -> nat {
    if commits.len() < commit_limit(max_commits) {
        commits.len()
    } else {
        commit_limit(max_commits)
    }
}

/// The commit-history pass: one chunk per commit, newest first as given,
/// at most `max_commits` (100 when unset). The first failure aborts the
/// pass. Returns how many chunks were emitted.
pub fn generate_commit_chunks(
    store: &mut ChunkStore,
    project_path: &str,
    commits: &Vec<CommitInfo>,
    max_commits: Option<usize>,
    now: i64,
) -> (r: Result<usize, ExtractError>)
    requires
        store_wf(old(store)@),
    ensures
        store_wf(final(store)@),
        chunk_growth(old(store)@, final(store)@, None, commits@.len()),
        exists|cs: Seq<Chunk>|
            cs.len() <= commits_taken(commits@, max_commits) && (forall|k: int|
                0 <= k < cs.len() ==> is_commit_chunk(#[trigger] cs[k], project_path@, commits@[k], now))
                && final(store)@ == upsert_all(old(store)@, cs, None, now) && (r is Ok ==> r->Ok_0 == cs.len() && cs.len()
                == upsert_successes(old(store)@, cs, None, now)),
        match r {
            Ok(n) => n == commits_taken(commits@, max_commits) && final(store)@.chunks.len()
                - old(store)@.chunks.len() <= n && forall|i: int|
                0 <= i < n ==> commit_row(final(store)@.chunks, #[trigger] commits@[i], now),
            Err(e) => e == ExtractError::DateOutOfRange || e == ExtractError::Store(StoreError::IdsExhausted),
        },
        old(store).next_chunk_id + commits@.len() < i64::MAX && (forall|i: int|
            0 <= i < commits_taken(commits@, max_commits) ==> in_chrono_range(
                (#[trigger] commits@[i]).time as int,
            )) ==> r is Ok,
{
    let limit = match max_commits {
        Some(m) => m,
        None => DEFAULT_MAX_COMMITS,
    };
    let mut i: usize = 0;
    let ghost mut cs: Seq<Chunk> = Seq::empty();
    proof {
        lemma_growth_refl(store@, None, 0);
    }
    while i < commits.len() && i < limit
        invariant
            store_wf(store@),
            0 <= i <= commits@.len(),
            i <= limit,
            limit == commit_limit(max_commits),
            chunk_growth(old(store)@, store@, None, i as nat),
            store@.chunks.len() - old(store)@.chunks.len() <= i,
            cs.len() == i,
            forall|k: int| 0 <= k < i ==> is_commit_chunk(#[trigger] cs[k], project_path@, commits@[k], now),
            store@ == upsert_all(old(store)@, cs, None, now),
            i == upsert_successes(old(store)@, cs, None, now),
            forall|j: int| 0 <= j < i ==> commit_row(store@.chunks, #[trigger] commits@[j], now),
        decreases commits@.len() - i,
    {
        let ghost before = store@;
        let res = generate_commit_chunk(store, project_path, &commits[i], now);
        proof {
            lemma_growth_trans(old(store)@, before, store@, None, i as nat, 1);
            assert forall|j: int| 0 <= j < i implies commit_row(store@.chunks, #[trigger] commits@[j], now) by {
                let secs = choose|secs: int|
                    (in_chrono_range(commits@[j].time as int) ==> secs == commits@[j].time) && (secs
                        == commits@[j].time || secs == fallback_seconds(now)) && holds_linked(
                        before.chunks,
                        sha256_hex(
                            commit_text(
                                commits@[j].id@,
                                commits@[j].author_name@,
                                commits@[j].author_email@,
                                utc_text(secs),
                                commits@[j].message@,
                                texts(commits@[j].files_modified@),
                            ),
                        ),
                        None,
                    );
                assert(holds_linked(
                    store@.chunks,
                    sha256_hex(
                        commit_text(
                            commits@[j].id@,
                            commits@[j].author_name@,
                            commits@[j].author_email@,
                            utc_text(secs),
                            commits@[j].message@,
                            texts(commits@[j].files_modified@),
                        ),
                    ),
                    None,
                ));
            }
        }
        let dated = match res {
            Err(ExtractError::DateOutOfRange) => false,
            _ => true,
        };
        if dated {
            proof {
                let c = choose|c: Chunk|
                    is_commit_chunk(c, project_path@, commits@[i as int], now) && store@ == upsert_chunk_spec(
                        before,
                        c,
                        None,
                        now,
                    ).0 && (res is Ok ==> holds_linked(store@.chunks, c.content_hash@, None)) && match upsert_chunk_spec(
                        before,
                        c,
                        None,
                        now,
                    ).1 {
                        Ok(_) => res == Ok::<usize, ExtractError>(1),
                        Err(e) => res == Err::<usize, ExtractError>(ExtractError::Store(e)),
                    };
                lemma_upsert_all_push(old(store)@, cs, c, None, now);
                let prev = cs;
                cs = prev.push(c);
                assert forall|k: int| 0 <= k < i + 1 implies is_commit_chunk(
                    #[trigger] cs[k],
                    project_path@,
                    commits@[k],
                    now,
                ) by {
                    if k < i {
                        assert(cs[k] == prev[k]);
                    }
                }
            }
        }
        match res {
            Ok(_) => {},
            Err(e) => {
                return Err(e);
            },
        }
        i = i + 1;
    }
    Ok(i)
}

} // verus!
