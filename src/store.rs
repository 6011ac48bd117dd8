use crate::hashing::{calculate_content_hash, sha256_hex};
use crate::order::{lemma_filter_step, ordered, page, page_rows, sort_rows, RowOrder};
use crate::types::{
    BusinessRule, Chunk, ChunkQuery, ChunkRelationship, ErrorLog, RelationshipType, Snapshot,
};
use vstd::prelude::*;

verus! {

/// Why a store operation was refused.
#[derive(Debug, Clone, Copy, PartialEq, Eq, Structural)]
pub enum StoreError {
    /// A table has used up its identifiers.
    IdsExhausted,
    /// A counter would leave its integer range.
    CounterOverflow,
}

/// The chunk store: chunks, relationships, business rules, snapshots and
/// error logs, each a table in insertion order, with the next identifier of
/// each table.
pub struct ChunkStore {
    pub chunks: Vec<Chunk>,
    pub relationships: Vec<ChunkRelationship>,
    pub rules: Vec<BusinessRule>,
    pub snapshots: Vec<Snapshot>,
    pub errors: Vec<ErrorLog>,
    pub next_chunk_id: i64,
    pub next_relationship_id: i64,
    pub next_rule_id: i64,
    pub next_snapshot_id: i64,
    pub next_error_id: i64,
}

/// The abstract state of a [`ChunkStore`].
pub struct StoreModel {
    pub chunks: Seq<Chunk>,
    pub relationships: Seq<ChunkRelationship>,
    pub rules: Seq<BusinessRule>,
    pub snapshots: Seq<Snapshot>,
    pub errors: Seq<ErrorLog>,
    pub next_chunk_id: int,
    pub next_relationship_id: int,
    pub next_rule_id: int,
    pub next_snapshot_id: int,
    pub next_error_id: int,
}

impl View for ChunkStore {
    type V = StoreModel;

    open spec fn view(&self) -> StoreModel {
        StoreModel {
            chunks: self.chunks@,
            relationships: self.relationships@,
            rules: self.rules@,
            snapshots: self.snapshots@,
            errors: self.errors@,
            next_chunk_id: self.next_chunk_id as int,
            next_relationship_id: self.next_relationship_id as int,
            next_rule_id: self.next_rule_id as int,
            next_snapshot_id: self.next_snapshot_id as int,
            next_error_id: self.next_error_id as int,
        }
    }
}

/// Every chunk's hash is the digest of its content.
pub open spec fn hashes_match_content(rows: Seq<Chunk>) -> bool {
    forall|i: int| 0 <= i < rows.len() ==> (#[trigger] rows[i]).content_hash@ == sha256_hex(rows[i].content@)
}

/// No two chunks share a content hash.
pub open spec fn hashes_unique(rows: Seq<Chunk>) -> bool {
    forall|i: int, j: int|
        0 <= i < rows.len() && 0 <= j < rows.len() && i != j ==> (#[trigger] rows[i]).content_hash@
            != (#[trigger] rows[j]).content_hash@
}

/// The invariant of the store.
pub open spec fn store_wf(m: StoreModel) -> bool {
    &&& hashes_match_content(m.chunks)
    &&& hashes_unique(m.chunks)
    &&& forall|i: int| 0 <= i < m.errors.len() ==> (#[trigger] m.errors[i]).id is Some
    &&& forall|i: int| 0 <= i < m.snapshots.len() ==> (#[trigger] m.snapshots[i]).version_major >= 0
}

/// The first index of `s` whose element satisfies `p`.
pub open spec fn first_match<T>(s: Seq<T>, p: spec_fn(T) -> bool) -> Option<int> {
    if exists|i: int| 0 <= i < s.len() && p(s[i]) {
        Some(
            choose|i: int|
                0 <= i < s.len() && p(s[i]) && forall|j: int| 0 <= j < i ==> !p(#[trigger] s[j]),
        )
    } else {
        None
    }
}

pub proof fn lemma_first_match<T>(s: Seq<T>, p: spec_fn(T) -> bool, i: int)
    requires
        0 <= i < s.len(),
        p(s[i]),
        forall|j: int| 0 <= j < i ==> !p(#[trigger] s[j]),
    ensures
        first_match(s, p) == Some(i),
{
    let c = choose|k: int|
        0 <= k < s.len() && p(s[k]) && forall|j: int| 0 <= j < k ==> !p(#[trigger] s[j]);
    assert(0 <= c < s.len() && p(s[c]) && forall|j: int| 0 <= j < c ==> !p(#[trigger] s[j]));
    if c < i {
        assert(!p(s[c]));
    }
    if i < c {
        assert(!p(s[i]));
    }
}

/// The index [`first_match`] gives is in range and satisfies the predicate.
pub proof fn lemma_first_match_in_range<T>(s: Seq<T>, p: spec_fn(T) -> bool)
    ensures
        match first_match(s, p) {
            Some(i) => 0 <= i < s.len() && p(s[i]),
            None => true,
        },
{
    if exists|i: int| 0 <= i < s.len() && p(s[i]) {
        let w = choose|i: int| 0 <= i < s.len() && p(s[i]);
        lemma_least_match(s, p, w);
    }
}

proof fn lemma_least_match<T>(s: Seq<T>, p: spec_fn(T) -> bool, w: int)
    requires
        0 <= w < s.len(),
        p(s[w]),
    ensures
        exists|i: int| 0 <= i < s.len() && p(s[i]) && forall|j: int| 0 <= j < i ==> !p(#[trigger] s[j]),
    decreases w,
{
    if exists|j: int| 0 <= j < w && p(s[j]) {
        let j = choose|j: int| 0 <= j < w && p(s[j]);
        lemma_least_match(s, p, j);
    } else {
        assert(forall|j: int| 0 <= j < w ==> !p(#[trigger] s[j]));
    }
}

pub proof fn lemma_no_match<T>(s: Seq<T>, p: spec_fn(T) -> bool)
    requires
        forall|j: int| 0 <= j < s.len() ==> !p(#[trigger] s[j]),
    ensures
        first_match(s, p) is None,
{
}

/// Content-hash equality with `h`.
pub open spec fn has_hash(h: Seq<char>) -> spec_fn(Chunk) -> bool {
    |c: Chunk| c.content_hash@ == h
}

/// A chunk row as first stored.
pub open spec fn new_chunk_row(c: Chunk, id: int, snapshot_id: Option<i64>, now: i64) -> Chunk {
    Chunk { id: Some(id as i64), snapshot_id, created_at: now, updated_at: now, ..c }
}

/// The later of two instants.
pub open spec fn later(a: i64, b: i64) -> i64 {
    if a >= b {
        a
    } else {
        b
    }
}

/// A chunk row re-ingested: metadata and snapshot link move on, and
/// `updated_at` moves to `now` unless it is already later (it never goes
/// back); the content never changes.
pub open spec fn refreshed_chunk_row(
    row: Chunk,
    metadata: Option<String>,
    snapshot_id: Option<i64>,
    now: i64,
) -> Chunk {
    Chunk { metadata, snapshot_id, updated_at: later(row.updated_at, now), ..row }
}

/// The store after upserting `cs` in order, all linked to `sid` at `now`. A
/// refused upsert leaves the store as it was.
pub open spec fn upsert_all(m: StoreModel, cs: Seq<Chunk>, sid: Option<i64>, now: i64) -> StoreModel
    decreases cs.len(),
{
    if cs.len() == 0 {
        m
    } else {
        upsert_chunk_spec(upsert_all(m, cs.drop_last(), sid, now), cs.last(), sid, now).0
    }
}

/// How many of the upserts of `cs` in order succeed.
pub open spec fn upsert_successes(m: StoreModel, cs: Seq<Chunk>, sid: Option<i64>, now: i64) -> nat
    decreases cs.len(),
{
    if cs.len() == 0 {
        0
    } else {
        upsert_successes(m, cs.drop_last(), sid, now) + if upsert_chunk_spec(
            upsert_all(m, cs.drop_last(), sid, now),
            cs.last(),
            sid,
            now,
        ).1 is Ok {
            1nat
        } else {
            0nat
        }
    }
}

/// Upserting one more chunk extends the fold by one step.
pub proof fn lemma_upsert_all_push(m: StoreModel, cs: Seq<Chunk>, c: Chunk, sid: Option<i64>, now: i64)
    ensures
        upsert_all(m, cs.push(c), sid, now) == upsert_chunk_spec(upsert_all(m, cs, sid, now), c, sid, now).0,
        upsert_successes(m, cs.push(c), sid, now) == upsert_successes(m, cs, sid, now) + if upsert_chunk_spec(
            upsert_all(m, cs, sid, now),
            c,
            sid,
            now,
        ).1 is Ok {
            1nat
        } else {
            0nat
        },
{
    assert(cs.push(c).drop_last() =~= cs);
}

/// Re-ingesting chunks whose digests are all already held adds no row:
/// every upsert succeeds as a refresh.
pub proof fn law_reingest_adds_nothing(m: StoreModel, cs: Seq<Chunk>, sid: Option<i64>, now: i64)
    requires
        forall|k: int| 0 <= k < cs.len() ==> holds_hash(m.chunks, (#[trigger] cs[k]).content_hash@),
    ensures
        upsert_all(m, cs, sid, now).chunks.len() == m.chunks.len(),
        upsert_successes(m, cs, sid, now) == cs.len(),
        forall|h: Seq<char>| holds_hash(m.chunks, h) ==> #[trigger] holds_hash(upsert_all(m, cs, sid, now).chunks, h),
    decreases cs.len(),
{
    if cs.len() > 0 {
        let t = cs.drop_last();
        assert forall|k: int| 0 <= k < t.len() implies holds_hash(m.chunks, (#[trigger] t[k]).content_hash@) by {
            assert(t[k] == cs[k]);
        }
        law_reingest_adds_nothing(m, t, sid, now);
        let p = upsert_all(m, t, sid, now);
        let c = cs.last();
        assert(holds_hash(m.chunks, cs[cs.len() - 1].content_hash@));
        assert(holds_hash(p.chunks, c.content_hash@));
        let k = choose|k: int| 0 <= k < p.chunks.len() && (#[trigger] p.chunks[k]).content_hash@ == c.content_hash@;
        assert(has_hash(c.content_hash@)(p.chunks[k]));
        assert(first_match(p.chunks, has_hash(c.content_hash@)) is Some);
        lemma_upsert_step(p, c, sid, now);
    }
}

/// Folding a concatenation folds its parts in turn.
pub proof fn lemma_upsert_all_append(m: StoreModel, a: Seq<Chunk>, b: Seq<Chunk>, sid: Option<i64>, now: i64)
    ensures
        upsert_all(m, a + b, sid, now) == upsert_all(upsert_all(m, a, sid, now), b, sid, now),
        upsert_successes(m, a + b, sid, now) == upsert_successes(m, a, sid, now) + upsert_successes(
            upsert_all(m, a, sid, now),
            b,
            sid,
            now,
        ),
    decreases b.len(),
{
    if b.len() == 0 {
        assert(a + b =~= a);
    } else {
        lemma_upsert_all_append(m, a, b.drop_last(), sid, now);
        assert((a + b).drop_last() =~= a + b.drop_last());
        assert((a + b).last() == b.last());
    }
}

/// Some chunk row has content hash `h`.
pub open spec fn holds_hash(rows: Seq<Chunk>, h: Seq<char>) -> bool {
    exists|k: int| 0 <= k < rows.len() && (#[trigger] rows[k]).content_hash@ == h
}

/// Some chunk row has content hash `h` and is linked to snapshot `sid`.
pub open spec fn holds_linked(rows: Seq<Chunk>, h: Seq<char>, sid: Option<i64>) -> bool {
    exists|k: int|
        0 <= k < rows.len() && (#[trigger] rows[k]).content_hash@ == h && rows[k].snapshot_id == sid
}

/// What any number of upserts linking to `sid` leave true: the chunk table
/// only grows, identifiers only advance (at most `steps` of them), and every
/// hash present before (linked to `sid`, if it was) is still present.
pub open spec fn chunk_growth(old: StoreModel, new: StoreModel, sid: Option<i64>, steps: nat) -> bool {
    &&& old.chunks.len() <= new.chunks.len() <= old.chunks.len() + steps
    &&& old.next_chunk_id <= new.next_chunk_id <= old.next_chunk_id + steps
    &&& new.chunks.len() - old.chunks.len() == new.next_chunk_id - old.next_chunk_id
    &&& forall|h: Seq<char>| holds_hash(old.chunks, h) ==> #[trigger] holds_hash(new.chunks, h)
    &&& forall|h: Seq<char>| holds_linked(old.chunks, h, sid) ==> #[trigger] holds_linked(new.chunks, h, sid)
}

/// No change is a growth of zero steps.
pub proof fn lemma_growth_refl(m: StoreModel, sid: Option<i64>, steps: nat)
    ensures
        chunk_growth(m, m, sid, steps),
{
}

/// Growths compose.
pub proof fn lemma_growth_trans(a: StoreModel, b: StoreModel, c: StoreModel, sid: Option<i64>, s1: nat, s2: nat)
    requires
        chunk_growth(a, b, sid, s1),
        chunk_growth(b, c, sid, s2),
    ensures
        chunk_growth(a, c, sid, s1 + s2),
{
}

/// One upsert is a growth of one step; it succeeds whenever an identifier
/// remains, fails only by leaving the store as it was, and on success leaves
/// a row with the chunk's hash linked to its snapshot.
pub proof fn lemma_upsert_step(m: StoreModel, c: Chunk, sid: Option<i64>, now: i64)
    ensures
        chunk_growth(m, upsert_chunk_spec(m, c, sid, now).0, sid, 1),
        m.next_chunk_id < i64::MAX ==> upsert_chunk_spec(m, c, sid, now).1 is Ok,
        upsert_chunk_spec(m, c, sid, now).1 is Err ==> upsert_chunk_spec(m, c, sid, now).0 == m
            && upsert_chunk_spec(m, c, sid, now).1 == Err::<bool, StoreError>(StoreError::IdsExhausted),
        upsert_chunk_spec(m, c, sid, now).1 is Ok ==> holds_linked(
            upsert_chunk_spec(m, c, sid, now).0.chunks,
            c.content_hash@,
            sid,
        ),
        (upsert_chunk_spec(m, c, sid, now).1 == Ok::<bool, StoreError>(true)) == (
        upsert_chunk_spec(m, c, sid, now).0.chunks.len() == m.chunks.len() + 1),
{
    let m2 = upsert_chunk_spec(m, c, sid, now).0;
    match first_match(m.chunks, has_hash(c.content_hash@)) {
        Some(i) => {
            lemma_first_match_in_range(m.chunks, has_hash(c.content_hash@));
            assert(m2.chunks[i].content_hash@ == c.content_hash@);
            assert forall|h: Seq<char>| holds_hash(m.chunks, h) implies #[trigger] holds_hash(m2.chunks, h) by {
                let k = choose|k: int| 0 <= k < m.chunks.len() && (#[trigger] m.chunks[k]).content_hash@ == h;
                assert(m2.chunks[k].content_hash == m.chunks[k].content_hash);
            }
            assert forall|h: Seq<char>| holds_linked(m.chunks, h, sid) implies #[trigger] holds_linked(m2.chunks, h, sid) by {
                let k = choose|k: int|
                    0 <= k < m.chunks.len() && (#[trigger] m.chunks[k]).content_hash@ == h && m.chunks[k].snapshot_id == sid;
                assert(m2.chunks[k].content_hash == m.chunks[k].content_hash);
            }
        },
        None => {
            if m.next_chunk_id < i64::MAX {
                let n = m.chunks.len() as int;
                assert(m2.chunks[n].content_hash@ == c.content_hash@);
                assert forall|h: Seq<char>| holds_hash(m.chunks, h) implies #[trigger] holds_hash(m2.chunks, h) by {
                    let k = choose|k: int| 0 <= k < m.chunks.len() && (#[trigger] m.chunks[k]).content_hash@ == h;
                    assert(m2.chunks[k] == m.chunks[k]);
                }
                assert forall|h: Seq<char>| holds_linked(m.chunks, h, sid) implies #[trigger] holds_linked(m2.chunks, h, sid) by {
                    let k = choose|k: int|
                        0 <= k < m.chunks.len() && (#[trigger] m.chunks[k]).content_hash@ == h && m.chunks[k].snapshot_id == sid;
                    assert(m2.chunks[k] == m.chunks[k]);
                }
            }
        },
    }
}

/// The content-addressed upsert: refresh the row with the same hash, or
/// append a new one.
pub open spec fn upsert_chunk_spec(
    m: StoreModel,
    c: Chunk,
    snapshot_id: Option<i64>,
    now: i64,
) -> (StoreModel, Result<bool, StoreError>) {
    match first_match(m.chunks, has_hash(c.content_hash@)) {
        Some(i) => (
            StoreModel {
                chunks: m.chunks.update(
                    i,
                    refreshed_chunk_row(m.chunks[i], c.metadata, snapshot_id, now),
                ),
                ..m
            },
            Ok(false),
        ),
        None => if m.next_chunk_id < i64::MAX {
            (
                StoreModel {
                    chunks: m.chunks.push(new_chunk_row(c, m.next_chunk_id, snapshot_id, now)),
                    next_chunk_id: m.next_chunk_id + 1,
                    ..m
                },
                Ok(true),
            )
        } else {
            (m, Err(StoreError::IdsExhausted))
        },
    }
}

/// The content-addressed upsert keeps the store invariant.
pub proof fn lemma_upsert_chunk_wf(m: StoreModel, c: Chunk, snapshot_id: Option<i64>, now: i64)
    requires
        store_wf(m),
        c.content_hash@ == sha256_hex(c.content@),
    ensures
        store_wf(upsert_chunk_spec(m, c, snapshot_id, now).0),
{
    let m2 = upsert_chunk_spec(m, c, snapshot_id, now).0;
    match first_match(m.chunks, has_hash(c.content_hash@)) {
        Some(i) => {
            assert forall|a: int, b: int|
                0 <= a < m2.chunks.len() && 0 <= b < m2.chunks.len() && a != b
                implies (#[trigger] m2.chunks[a]).content_hash@ != (#[trigger] m2.chunks[b]).content_hash@ by {
                assert(m2.chunks[a].content_hash == m.chunks[a].content_hash);
                assert(m2.chunks[b].content_hash == m.chunks[b].content_hash);
            }
            assert forall|a: int| 0 <= a < m2.chunks.len()
                implies (#[trigger] m2.chunks[a]).content_hash@ == sha256_hex(m2.chunks[a].content@) by {
                assert(m2.chunks[a].content_hash == m.chunks[a].content_hash);
                assert(m2.chunks[a].content == m.chunks[a].content);
            }
        },
        None => {
            let n = m.chunks.len() as int;
            assert forall|a: int, b: int|
                0 <= a < m2.chunks.len() && 0 <= b < m2.chunks.len() && a != b
                implies (#[trigger] m2.chunks[a]).content_hash@ != (#[trigger] m2.chunks[b]).content_hash@ by {
                if a == n {
                    assert(!has_hash(c.content_hash@)(m.chunks[b]));
                } else if b == n {
                    assert(!has_hash(c.content_hash@)(m.chunks[a]));
                }
            }
        },
    }
}

/// Whatever is ingested, every stored chunk keeps the SHA-256 digest of its
/// own content as its hash.
pub proof fn law_chunk_hash_is_content_digest(m: StoreModel, c: Chunk, snapshot_id: Option<i64>, now: i64)
    requires
        store_wf(m),
        c.content_hash@ == sha256_hex(c.content@),
    ensures
        forall|i: int|
            0 <= i < upsert_chunk_spec(m, c, snapshot_id, now).0.chunks.len() ==> (
            #[trigger] upsert_chunk_spec(m, c, snapshot_id, now).0.chunks[i]).content_hash@
                == sha256_hex(upsert_chunk_spec(m, c, snapshot_id, now).0.chunks[i].content@),
{
    lemma_upsert_chunk_wf(m, c, snapshot_id, now);
}

/// Exactly one chunk row holds the content hash `h`.
pub open spec fn single_row_with_hash(rows: Seq<Chunk>, h: Seq<char>) -> bool {
    exists|i: int|
        0 <= i < rows.len() && (#[trigger] rows[i]).content_hash@ == h && forall|j: int|
            0 <= j < rows.len() && j != i ==> (#[trigger] rows[j]).content_hash@ != h
}

/// Ingesting the same chunk twice leaves a single row for its content, and
/// the second call reports that it created nothing.
pub proof fn law_upsert_chunk_twice(
    m: StoreModel,
    c: Chunk,
    first_snapshot: Option<i64>,
    first_now: i64,
    second_snapshot: Option<i64>,
    second_now: i64,
)
    requires
        store_wf(m),
        c.content_hash@ == sha256_hex(c.content@),
        upsert_chunk_spec(m, c, first_snapshot, first_now).1 is Ok,
    ensures
        ({
            let m1 = upsert_chunk_spec(m, c, first_snapshot, first_now).0;
            let (m2, r2) = upsert_chunk_spec(m1, c, second_snapshot, second_now);
            &&& r2 == Ok::<bool, StoreError>(false)
            &&& m2.chunks.len() == m1.chunks.len()
            &&& single_row_with_hash(m2.chunks, c.content_hash@)
        }),
{
    lemma_upsert_chunk_wf(m, c, first_snapshot, first_now);
    let m1 = upsert_chunk_spec(m, c, first_snapshot, first_now).0;
    let h = c.content_hash@;
    let k: int = match first_match(m.chunks, has_hash(h)) {
        Some(i) => i,
        None => m.chunks.len() as int,
    };
    assert(m1.chunks[k].content_hash@ == h);
    assert(has_hash(h)(m1.chunks[k]));
    let i2 = first_match(m1.chunks, has_hash(h));
    assert(i2 is Some);
    let j = i2.unwrap();
    assert(j == k);
    lemma_upsert_chunk_wf(m1, c, second_snapshot, second_now);
    let m2 = upsert_chunk_spec(m1, c, second_snapshot, second_now).0;
    assert(m2.chunks[k].content_hash@ == h);
    assert forall|x: int| 0 <= x < m2.chunks.len() && x != k
        implies (#[trigger] m2.chunks[x]).content_hash@ != h by {
    }
}

/// A text column filter: unset matches every row, set matches rows whose
/// column is present and equal.
pub open spec fn column_matches(filter: Option<String>, column: Option<String>) -> bool {
    match filter {
        Some(f) => match column {
            Some(c) => c@ == f@,
            None => false,
        },
        None => true,
    }
}

/// The chunk satisfies every filter that `q` sets.
pub open spec fn chunk_matches(q: ChunkQuery, c: Chunk) -> bool {
    &&& match q.project_path {
        Some(p) => c.project_path@ == p@,
        None => true,
    }
    &&& match q.chunk_types {
        Some(ts) => ts@.contains(c.chunk_type),
        None => true,
    }
    &&& column_matches(q.file_path, c.file_path)
    &&& column_matches(q.entity_name, c.entity_name)
}

/// The chunks that `q` selects, in table order.
pub open spec fn matching_chunks(rows: Seq<Chunk>, q: ChunkQuery) -> Seq<Chunk> {
    rows.filter(selects(q))
}

/// [`chunk_matches`] as a predicate.
pub open spec fn selects(q: ChunkQuery) -> spec_fn(Chunk) -> bool {
    |c: Chunk| chunk_matches(q, c)
}

/// Most recently updated first.
pub struct ByRecency;

impl RowOrder<Chunk> for ByRecency {
    open spec fn before(a: Chunk, b: Chunk) -> bool {
        a.updated_at > b.updated_at
    }

    fn before_exec(a: &Chunk, b: &Chunk) -> (r: bool) {
        a.updated_at > b.updated_at
    }

    proof fn lemma_asymmetric(a: Chunk, b: Chunk) {
    }

    proof fn lemma_negatively_transitive(a: Chunk, b: Chunk, c: Chunk) {
    }
}

/// The answer to a chunk query: the selected chunks, most recently updated
/// first (ties in table order), then offset and limit.
pub open spec fn query_chunks_spec(rows: Seq<Chunk>, q: ChunkQuery) -> Seq<Chunk> {
    page(ordered::<Chunk, ByRecency>(matching_chunks(rows, q)), q.offset, q.limit)
}

/// A relationship row as stored.
pub open spec fn new_relationship_row(
    id: int,
    from_chunk_id: i64,
    to_chunk_id: i64,
    relationship_type: RelationshipType,
    metadata: Option<String>,
    now: i64,
) -> ChunkRelationship {
    ChunkRelationship {
        id: Some(id as i64),
        from_chunk_id,
        to_chunk_id,
        relationship_type,
        metadata,
        created_at: now,
    }
}

/// The relationship leaves (`outgoing`) or enters chunk `chunk_id`.
pub open spec fn touches(chunk_id: i64, outgoing: bool) -> spec_fn(ChunkRelationship) -> bool {
    |r: ChunkRelationship|
        if outgoing {
            r.from_chunk_id == chunk_id
        } else {
            r.to_chunk_id == chunk_id
        }
}

/// A chunk of `project` has identifier `id`.
pub open spec fn is_project_chunk_id(rows: Seq<Chunk>, project: Seq<char>, id: i64) -> bool {
    exists|i: int| 0 <= i < rows.len() && rows[i].project_path@ == project && rows[i].id == Some(id)
}

/// The chunk belongs to another project than `project`.
pub open spec fn outside_project(project: Seq<char>) -> spec_fn(Chunk) -> bool {
    |c: Chunk| c.project_path@ != project
}

/// Neither end of the relationship is a chunk of `project`.
pub open spec fn survives_purge(rows: Seq<Chunk>, project: Seq<char>) -> spec_fn(ChunkRelationship) -> bool {
    |r: ChunkRelationship|
        !is_project_chunk_id(rows, project, r.from_chunk_id) && !is_project_chunk_id(
            rows,
            project,
            r.to_chunk_id,
        )
}

/// A copy of an optional string.
pub fn copy_opt_string(o: &Option<String>) -> (r: Option<String>)
    ensures
        r == *o,
{
    match o {
        Some(s) => Some(s.clone()),
        None => None,
    }
}

impl Chunk {
    /// A field-by-field copy.
    pub fn copy(&self) -> (r: Chunk)
        ensures
            r == *self,
    {
        Chunk {
            id: self.id,
            project_path: self.project_path.clone(),
            chunk_type: self.chunk_type,
            file_path: copy_opt_string(&self.file_path),
            entity_name: copy_opt_string(&self.entity_name),
            content: self.content.clone(),
            content_hash: self.content_hash.clone(),
            metadata: copy_opt_string(&self.metadata),
            snapshot_id: self.snapshot_id,
            created_at: self.created_at,
            updated_at: self.updated_at,
        }
    }
}

impl ChunkRelationship {
    /// A field-by-field copy.
    pub fn copy(&self) -> (r: ChunkRelationship)
        ensures
            r == *self,
    {
        ChunkRelationship {
            id: self.id,
            from_chunk_id: self.from_chunk_id,
            to_chunk_id: self.to_chunk_id,
            relationship_type: self.relationship_type,
            metadata: copy_opt_string(&self.metadata),
            created_at: self.created_at,
        }
    }
}

/// Exec form of [`column_matches`].
fn column_matches_exec(filter: &Option<String>, column: &Option<String>) -> (r: bool)
    ensures
        r == column_matches(*filter, *column),
{
    match filter {
        Some(f) => match column {
            Some(c) => *c == *f,
            None => false,
        },
        None => true,
    }
}

/// Exec form of [`chunk_matches`].
pub fn chunk_matches_query(q: &ChunkQuery, c: &Chunk) -> (r: bool)
    ensures
        r == chunk_matches(*q, *c),
{
    match &q.project_path {
        Some(p) => {
            if c.project_path != *p {
                return false;
            }
        },
        None => {},
    }
    match &q.chunk_types {
        Some(ts) => {
            let mut found = false;
            let mut i: usize = 0;
            while i < ts.len()
                invariant
                    0 <= i <= ts@.len(),
                    found == exists|j: int| 0 <= j < i && ts@[j] == c.chunk_type,
                decreases ts@.len() - i,
            {
                if ts[i] == c.chunk_type {
                    found = true;
                }
                i = i + 1;
            }
            if !found {
                return false;
            }
        },
        None => {},
    }
    column_matches_exec(&q.file_path, &c.file_path) && column_matches_exec(
        &q.entity_name,
        &c.entity_name,
    )
}

impl ChunkStore {
    /// The first chunk whose content hash is `h`.
    pub fn find_chunk_by_hash(&self, h: &String) -> (r: Option<usize>)
        ensures
            match r {
                Some(i) => first_match(self.chunks@, has_hash(h@)) == Some(i as int),
                None => first_match(self.chunks@, has_hash(h@)) is None,
            },
    {
        let n = self.chunks.len();
        let mut i: usize = 0;
        while i < n
            invariant
                n == self.chunks@.len(),
                0 <= i <= n,
                forall|j: int| 0 <= j < i ==> !has_hash(h@)(#[trigger] self.chunks@[j]),
            decreases n - i,
        {
            if self.chunks[i].content_hash == *h {
                proof {
                    lemma_first_match(self.chunks@, has_hash(h@), i as int);
                }
                return Some(i);
            }
            i = i + 1;
        }
        proof {
            lemma_no_match(self.chunks@, has_hash(h@));
        }
        None
    }

    /// Whether the tables satisfy the store invariant (for tables loaded
    /// from elsewhere).
    pub fn check_wf(&self) -> (r: bool)
        ensures
            r == store_wf(self@),
    {
        let n = self.chunks.len();
        let mut i: usize = 0;
        while i < n
            invariant
                n == self.chunks@.len(),
                0 <= i <= n,
                forall|a: int| 0 <= a < i ==> (#[trigger] self.chunks@[a]).content_hash@ == sha256_hex(self.chunks@[a].content@),
                forall|a: int, b: int|
                    0 <= a < i && 0 <= b < n && a != b ==> (#[trigger] self.chunks@[a]).content_hash@
                        != (#[trigger] self.chunks@[b]).content_hash@,
            decreases n - i,
        {
            let h = calculate_content_hash(self.chunks[i].content.as_str());
            if h != self.chunks[i].content_hash {
                return false;
            }
            let mut j: usize = 0;
            while j < n
                invariant
                    n == self.chunks@.len(),
                    0 <= i < n,
                    0 <= j <= n,
                    forall|b: int| 0 <= b < j && b != i ==> self.chunks@[i as int].content_hash@
                        != (#[trigger] self.chunks@[b]).content_hash@,
                decreases n - j,
            {
                if j != i && self.chunks[j].content_hash == self.chunks[i].content_hash {
                    return false;
                }
                j = j + 1;
            }
            i = i + 1;
        }
        let ne = self.errors.len();
        let mut k: usize = 0;
        while k < ne
            invariant
                ne == self.errors@.len(),
                0 <= k <= ne,
                forall|a: int| 0 <= a < k ==> (#[trigger] self.errors@[a]).id is Some,
            decreases ne - k,
        {
            if self.errors[k].id.is_none() {
                return false;
            }
            k = k + 1;
        }
        let ns = self.snapshots.len();
        let mut m: usize = 0;
        while m < ns
            invariant
                ns == self.snapshots@.len(),
                0 <= m <= ns,
                forall|a: int| 0 <= a < m ==> (#[trigger] self.snapshots@[a]).version_major >= 0,
            decreases ns - m,
        {
            if self.snapshots[m].version_major < 0 {
                return false;
            }
            m = m + 1;
        }
        true
    }

    /// An empty store.
    pub fn new() -> (r: ChunkStore)
        ensures
            store_wf(r@),
            r@.chunks.len() == 0,
            r@.relationships.len() == 0,
            r@.rules.len() == 0,
            r@.snapshots.len() == 0,
            r@.errors.len() == 0,
            r.next_chunk_id == 1 && r.next_relationship_id == 1 && r.next_rule_id == 1
                && r.next_snapshot_id == 1 && r.next_error_id == 1,
    {
        ChunkStore {
            chunks: Vec::new(),
            relationships: Vec::new(),
            rules: Vec::new(),
            snapshots: Vec::new(),
            errors: Vec::new(),
            next_chunk_id: 1,
            next_relationship_id: 1,
            next_rule_id: 1,
            next_snapshot_id: 1,
            next_error_id: 1,
        }
    }

    /// Stores `chunk` under its content hash. Returns `Ok(true)` when a row
    /// was created and `Ok(false)` when the row with the same hash was
    /// refreshed (its `updated_at`, `metadata` and `snapshot_id`).
    pub fn upsert_chunk(&mut self, chunk: &Chunk, snapshot_id: Option<i64>, now: i64) -> (r:
        Result<bool, StoreError>)
        requires
            store_wf(old(self)@),
            chunk.content_hash@ == sha256_hex(chunk.content@),
        ensures
            store_wf(final(self)@),
            (final(self)@, r) == upsert_chunk_spec(old(self)@, *chunk, snapshot_id, now),
    {
        let found = self.find_chunk_by_hash(&chunk.content_hash);
        if let Some(i) = found {
            let mut row = self.chunks.remove(i);
            row.metadata = copy_opt_string(&chunk.metadata);
            row.snapshot_id = snapshot_id;
            row.updated_at = if row.updated_at >= now {
                row.updated_at
            } else {
                now
            };
            self.chunks.insert(i, row);
            assert(self.chunks@ =~= old(self).chunks@.update(
                i as int,
                refreshed_chunk_row(old(self).chunks@[i as int], chunk.metadata, snapshot_id, now),
            ));
            assert forall|a: int, b: int|
                0 <= a < self.chunks@.len() && 0 <= b < self.chunks@.len() && a != b
                implies (#[trigger] self.chunks@[a]).content_hash@
                    != (#[trigger] self.chunks@[b]).content_hash@ by {
                assert(self.chunks@[a].content_hash == old(self).chunks@[a].content_hash);
                assert(self.chunks@[b].content_hash == old(self).chunks@[b].content_hash);
            }
            assert forall|a: int| 0 <= a < self.chunks@.len()
                implies (#[trigger] self.chunks@[a]).content_hash@ == sha256_hex(self.chunks@[a].content@) by {
                assert(self.chunks@[a].content_hash == old(self).chunks@[a].content_hash);
                assert(self.chunks@[a].content == old(self).chunks@[a].content);
            }
            return Ok(false);
        }
        let n = self.chunks.len();
        if self.next_chunk_id == i64::MAX {
            return Err(StoreError::IdsExhausted);
        }
        let row = Chunk {
            id: Some(self.next_chunk_id),
            project_path: chunk.project_path.clone(),
            chunk_type: chunk.chunk_type,
            file_path: copy_opt_string(&chunk.file_path),
            entity_name: copy_opt_string(&chunk.entity_name),
            content: chunk.content.clone(),
            content_hash: chunk.content_hash.clone(),
            metadata: copy_opt_string(&chunk.metadata),
            snapshot_id,
            created_at: now,
            updated_at: now,
        };
        self.chunks.push(row);
        self.next_chunk_id = self.next_chunk_id + 1;
        assert forall|a: int, b: int|
            0 <= a < self.chunks@.len() && 0 <= b < self.chunks@.len() && a != b
            implies (#[trigger] self.chunks@[a]).content_hash@
                != (#[trigger] self.chunks@[b]).content_hash@ by {
            if a == n {
                assert(!has_hash(chunk.content_hash@)(old(self).chunks@[b]));
            } else if b == n {
                assert(!has_hash(chunk.content_hash@)(old(self).chunks@[a]));
            }
        }
        Ok(true)
    }

    /// The chunks that `q` selects, most recently updated first, after its
    /// offset and limit.
    pub fn query_chunks(&self, q: &ChunkQuery) -> (r: Vec<Chunk>)
        ensures
            r@ == query_chunks_spec(self.chunks@, *q),
            forall|i: int, j: int| 0 <= i < j < r@.len() ==> r@[i].updated_at >= r@[j].updated_at,
    {
        let ghost pred = selects(*q);
        let mut selected: Vec<Chunk> = Vec::new();
        let n = self.chunks.len();
        let mut i: usize = 0;
        while i < n
            invariant
                n == self.chunks@.len(),
                0 <= i <= n,
                pred == selects(*q),
                selected@ == self.chunks@.take(i as int).filter(pred),
            decreases n - i,
        {
            proof {
                lemma_filter_step(self.chunks@, i as int, pred);
            }
            if chunk_matches_query(q, &self.chunks[i]) {
                selected.push(self.chunks[i].copy());
            }
            i = i + 1;
        }
        assert(self.chunks@.take(n as int) =~= self.chunks@);
        let sorted = sort_rows::<Chunk, ByRecency>(selected);
        let r = page_rows(sorted, q.offset, q.limit);
        proof {
            let start: int = match q.offset {
                Some(o) => if o <= sorted@.len() {
                    o as int
                } else {
                    sorted@.len() as int
                },
                None => 0,
            };
            assert forall|i: int, j: int| 0 <= i < j < r@.len() implies r@[i].updated_at >= r@[j].updated_at by {
                assert(r@[i] == sorted@[start + i]);
                assert(r@[j] == sorted@[start + j]);
                assert(!ByRecency::before(sorted@[start + j], sorted@[start + i]));
            }
        }
        r
    }

    /// Records a typed edge between two chunks; returns its identifier.
    pub fn insert_relationship(
        &mut self,
        from_chunk_id: i64,
        to_chunk_id: i64,
        relationship_type: RelationshipType,
        metadata: Option<String>,
        now: i64,
    ) -> (r: Result<i64, StoreError>)
        requires
            store_wf(old(self)@),
        ensures
            store_wf(final(self)@),
            old(self).next_relationship_id < i64::MAX ==> {
                &&& r == Ok::<i64, StoreError>(old(self).next_relationship_id)
                &&& final(self)@ == (StoreModel {
                    relationships: old(self)@.relationships.push(
                        new_relationship_row(
                            old(self).next_relationship_id as int,
                            from_chunk_id,
                            to_chunk_id,
                            relationship_type,
                            metadata,
                            now,
                        ),
                    ),
                    next_relationship_id: old(self)@.next_relationship_id + 1,
                    ..old(self)@
                })
            },
            old(self).next_relationship_id == i64::MAX ==> r == Err::<i64, StoreError>(
                StoreError::IdsExhausted,
            ) && final(self)@ == old(self)@,
    {
        if self.next_relationship_id == i64::MAX {
            return Err(StoreError::IdsExhausted);
        }
        let id = self.next_relationship_id;
        self.relationships.push(
            ChunkRelationship {
                id: Some(id),
                from_chunk_id,
                to_chunk_id,
                relationship_type,
                metadata,
                created_at: now,
            },
        );
        self.next_relationship_id = id + 1;
        Ok(id)
    }

    /// The relationships that leave (`outgoing`) or enter chunk `chunk_id`,
    /// in table order.
    pub fn get_relationships(&self, chunk_id: i64, outgoing: bool) -> (r: Vec<ChunkRelationship>)
        ensures
            r@ == self.relationships@.filter(touches(chunk_id, outgoing)),
    {
        let ghost pred = touches(chunk_id, outgoing);
        let mut out: Vec<ChunkRelationship> = Vec::new();
        let n = self.relationships.len();
        let mut i: usize = 0;
        while i < n
            invariant
                n == self.relationships@.len(),
                0 <= i <= n,
                pred == touches(chunk_id, outgoing),
                out@ == self.relationships@.take(i as int).filter(pred),
            decreases n - i,
        {
            proof {
                lemma_filter_step(self.relationships@, i as int, pred);
            }
            let rel = &self.relationships[i];
            let hit = if outgoing {
                rel.from_chunk_id == chunk_id
            } else {
                rel.to_chunk_id == chunk_id
            };
            if hit {
                out.push(rel.copy());
            }
            i = i + 1;
        }
        assert(self.relationships@.take(n as int) =~= self.relationships@);
        out
    }

    /// A chunk of `project` has identifier `id`.
    fn holds_project_chunk_id(&self, project: &String, id: i64) -> (r: bool)
        ensures
            r == is_project_chunk_id(self.chunks@, project@, id),
    {
        let n = self.chunks.len();
        let mut i: usize = 0;
        while i < n
            invariant
                n == self.chunks@.len(),
                0 <= i <= n,
                forall|j: int|
                    0 <= j < i ==> !(self.chunks@[j].project_path@ == project@
                        && self.chunks@[j].id == Some(id)),
            decreases n - i,
        {
            if self.chunks[i].project_path == *project && self.chunks[i].id == Some(id) {
                return true;
            }
            i = i + 1;
        }
        false
    }

    /// Removes every chunk of `project`, and every relationship with an end
    /// among them; returns how many chunks went.
    pub fn delete_project_chunks(&mut self, project: &String) -> (r: usize)
        requires
            store_wf(old(self)@),
        ensures
            store_wf(final(self)@),
            final(self)@ == (StoreModel {
                chunks: old(self)@.chunks.filter(outside_project(project@)),
                relationships: old(self)@.relationships.filter(
                    survives_purge(old(self)@.chunks, project@),
                ),
                ..old(self)@
            }),
            r == old(self)@.chunks.len() - final(self)@.chunks.len(),
    {
        let ghost rows = self.chunks@;
        let ghost rel_pred = survives_purge(rows, project@);
        let mut kept_rels: Vec<ChunkRelationship> = Vec::new();
        let nr = self.relationships.len();
        let mut i: usize = 0;
        while i < nr
            invariant
                nr == self.relationships@.len(),
                0 <= i <= nr,
                self@ == old(self)@,
                rows == self.chunks@,
                rel_pred == survives_purge(rows, project@),
                kept_rels@ == self.relationships@.take(i as int).filter(rel_pred),
            decreases nr - i,
        {
            proof {
                lemma_filter_step(self.relationships@, i as int, rel_pred);
            }
            let from_gone = self.holds_project_chunk_id(project, self.relationships[i].from_chunk_id);
            let to_gone = self.holds_project_chunk_id(project, self.relationships[i].to_chunk_id);
            if !from_gone && !to_gone {
                kept_rels.push(self.relationships[i].copy());
            }
            i = i + 1;
        }
        assert(self.relationships@.take(nr as int) =~= self.relationships@);
        let ghost pred = outside_project(project@);
        let mut kept: Vec<Chunk> = Vec::new();
        let n = self.chunks.len();
        let mut k: usize = 0;
        while k < n
            invariant
                n == self.chunks@.len(),
                0 <= k <= n,
                self@ == old(self)@,
                store_wf(self@),
                pred == outside_project(project@),
                kept@ == self.chunks@.take(k as int).filter(pred),
                kept@.len() <= k,
                hashes_match_content(kept@),
                hashes_unique(kept@),
                forall|a: int|
                    0 <= a < kept@.len() ==> exists|j: int|
                        0 <= j < k && #[trigger] kept@[a] == self.chunks@[j],
            decreases n - k,
        {
            proof {
                lemma_filter_step(self.chunks@, k as int, pred);
            }
            if self.chunks[k].project_path != *project {
                let row = self.chunks[k].copy();
                let ghost before_push = kept@;
                proof {
                    assert forall|a: int| 0 <= a < kept@.len() implies (#[trigger] kept@[a]).content_hash@
                        != row.content_hash@ by {
                        let j = choose|j: int| 0 <= j < k && #[trigger] kept@[a] == self.chunks@[j];
                        assert(self.chunks@[j] == kept@[a]);
                    }
                }
                kept.push(row);
                proof {
                    assert forall|a: int|
                        0 <= a < kept@.len() implies exists|j: int|
                            0 <= j < k + 1 && #[trigger] kept@[a] == self.chunks@[j] by {
                        if a == kept@.len() - 1 {
                            assert(kept@[a] == self.chunks@[k as int]);
                        } else {
                            let j = choose|j: int| 0 <= j < k && #[trigger] kept@[a] == self.chunks@[j];
                            assert(kept@[a] == self.chunks@[j]);
                        }
                    }
                    assert forall|a: int, b: int|
                        0 <= a < kept@.len() && 0 <= b < kept@.len() && a != b
                        implies (#[trigger] kept@[a]).content_hash@ != (#[trigger] kept@[b]).content_hash@ by {
                        if a != kept@.len() - 1 && b != kept@.len() - 1 {
                            assert(kept@[a] == before_push[a]);
                        }
                    }
                }
            }
            k = k + 1;
        }
        assert(self.chunks@.take(n as int) =~= self.chunks@);
        let removed = n - kept.len();
        self.chunks = kept;
        self.relationships = kept_rels;
        removed
    }
}

} // verus!
