use crate::order::{lemma_filter_step, ordered, sort_rows, RowOrder};
use crate::store::{
    copy_opt_string, first_match, lemma_first_match, lemma_no_match, store_wf, ChunkStore,
    StoreError, StoreModel,
};
use crate::types::{Snapshot, SnapshotType};
use vstd::prelude::*;

verus! {

/// Why a snapshot operation was refused.
#[derive(Debug, Clone, Copy, PartialEq, Eq, Structural)]
pub enum SnapshotError {
    /// No snapshot has the identifier.
    NotFound,
    /// Only master snapshots can be rewound to.
    NotMaster,
    /// The snapshot has no commit to branch from or reset to.
    MissingCommit,
    /// The next version number does not fit.
    VersionOverflow,
    /// The store refused the row.
    Store(StoreError),
}

/// A master snapshot of `project`.
pub open spec fn is_master_of(s: Snapshot, project: Seq<char>) -> bool {
    s.snapshot_type == SnapshotType::Master && s.project_path@ == project
}

/// An agent snapshot of `project` on master version `major`.
pub open spec fn is_agent_of(s: Snapshot, project: Seq<char>, major: int) -> bool {
    s.snapshot_type == SnapshotType::Agent && s.project_path@ == project && s.version_major == major
}

/// The largest master version of `project`, 0 when there is none.
pub open spec fn max_master_version(rows: Seq<Snapshot>, project: Seq<char>) -> int
    decreases rows.len(),
{
    if rows.len() == 0 {
        0
    } else {
        let rest = max_master_version(rows.drop_last(), project);
        if is_master_of(rows.last(), project) && rows.last().version_major > rest {
            rows.last().version_major as int
        } else {
            rest
        }
    }
}

/// The largest agent version on master `major` of `project`, 0 when there
/// is none (an agent row without a minor version counts as 0).
pub open spec fn max_agent_version(rows: Seq<Snapshot>, project: Seq<char>, major: int) -> int
    decreases rows.len(),
{
    if rows.len() == 0 {
        0
    } else {
        let rest = max_agent_version(rows.drop_last(), project, major);
        let minor: int = match rows.last().version_minor {
            Some(v) => v as int,
            None => 0,
        };
        if is_agent_of(rows.last(), project, major) && minor > rest {
            minor
        } else {
            rest
        }
    }
}

/// The master versions present for `project`.
pub open spec fn master_versions(rows: Seq<Snapshot>, project: Seq<char>) -> Set<int> {
    Set::new(
        |v: int|
            exists|i: int|
                0 <= i < rows.len() && is_master_of(rows[i], project) && rows[i].version_major
                    == v,
    )
}

/// The agent versions present on master `major` of `project`.
pub open spec fn agent_versions(rows: Seq<Snapshot>, project: Seq<char>, major: int) -> Set<int> {
    Set::new(
        |v: int|
            exists|i: int|
                0 <= i < rows.len() && is_agent_of(rows[i], project, major)
                    && rows[i].version_minor is Some && rows[i].version_minor.unwrap() == v,
    )
}

/// `{1, ..., k}`.
pub open spec fn one_to(k: int) -> Set<int> {
    Set::new(|v: int| 1 <= v <= k)
}

/// A snapshot row as stored.
pub open spec fn new_snapshot_row(s: Snapshot, id: int, now: i64) -> Snapshot {
    Snapshot { id: Some(id as i64), created_at: now, ..s }
}

/// The store after a snapshot row was added.
pub open spec fn with_snapshot(m: StoreModel, s: Snapshot, now: i64) -> StoreModel {
    StoreModel {
        snapshots: m.snapshots.push(new_snapshot_row(s, m.next_snapshot_id, now)),
        next_snapshot_id: m.next_snapshot_id + 1,
        ..m
    }
}

/// Kept by a rewind of `project` to master version `major`: every row but
/// the later masters of that project.
pub open spec fn kept_by_rewind(project: Seq<char>, major: int) -> spec_fn(Snapshot) -> bool {
    |s: Snapshot| !(is_master_of(s, project) && s.version_major > major)
}

/// Timeline order: highest major version first, then highest minor version
/// (a missing one last), then newest.
pub struct ByVersion;

/// `a` sorts before `b` when both minor versions are compared descending,
/// a missing one last.
pub open spec fn minor_before(a: Option<i32>, b: Option<i32>) -> bool {
    match (a, b) {
        (Some(x), Some(y)) => x > y,
        (Some(_), None) => true,
        _ => false,
    }
}

impl RowOrder<Snapshot> for ByVersion {
    open spec fn before(a: Snapshot, b: Snapshot) -> bool {
        a.version_major > b.version_major || (a.version_major == b.version_major && (minor_before(
            a.version_minor,
            b.version_minor,
        ) || (a.version_minor == b.version_minor && a.created_at > b.created_at)))
    }

    fn before_exec(a: &Snapshot, b: &Snapshot) -> (r: bool) {
        if a.version_major != b.version_major {
            return a.version_major > b.version_major;
        }
        let minor_first = match (a.version_minor, b.version_minor) {
            (Some(x), Some(y)) => x > y,
            (Some(_), None) => true,
            _ => false,
        };
        minor_first || (a.version_minor == b.version_minor && a.created_at > b.created_at)
    }

    proof fn lemma_asymmetric(a: Snapshot, b: Snapshot) {
    }

    proof fn lemma_negatively_transitive(a: Snapshot, b: Snapshot, c: Snapshot) {
    }
}

/// The snapshot belongs to `project` and, if `kind` is set, is of that kind.
pub open spec fn listed_snapshot(project: Seq<char>, kind: Option<SnapshotType>) -> spec_fn(
    Snapshot,
) -> bool {
    |s: Snapshot|
        s.project_path@ == project && match kind {
            Some(k) => s.snapshot_type == k,
            None => true,
        }
}

/// The snapshot has identifier `id`.
pub open spec fn snapshot_with_id(id: i64) -> spec_fn(Snapshot) -> bool {
    |s: Snapshot| s.id == Some(id)
}

proof fn lemma_max_master(rows: Seq<Snapshot>, project: Seq<char>)
    ensures
        max_master_version(rows, project) >= 0,
        forall|i: int|
            0 <= i < rows.len() && is_master_of(#[trigger] rows[i], project) ==> rows[i].version_major
                <= max_master_version(rows, project),
        max_master_version(rows, project) == 0 || exists|i: int|
            0 <= i < rows.len() && is_master_of(rows[i], project) && rows[i].version_major
                == max_master_version(rows, project),
    decreases rows.len(),
{
    if rows.len() > 0 {
        let t = rows.drop_last();
        lemma_max_master(t, project);
        assert forall|i: int|
            0 <= i < rows.len() && is_master_of(#[trigger] rows[i], project) implies rows[i].version_major
                <= max_master_version(rows, project) by {
            if i < t.len() {
                assert(t[i] == rows[i]);
            }
        }
        if max_master_version(rows, project) != 0 && max_master_version(rows, project)
            == max_master_version(t, project) {
            let i = choose|i: int|
                0 <= i < t.len() && is_master_of(t[i], project) && t[i].version_major
                    == max_master_version(t, project);
            assert(rows[i] == t[i]);
        }
    }
}

proof fn lemma_max_agent(rows: Seq<Snapshot>, project: Seq<char>, major: int)
    ensures
        max_agent_version(rows, project, major) >= 0,
        forall|i: int|
            0 <= i < rows.len() && is_agent_of(#[trigger] rows[i], project, major)
                && rows[i].version_minor is Some ==> rows[i].version_minor.unwrap()
                <= max_agent_version(rows, project, major),
        max_agent_version(rows, project, major) == 0 || exists|i: int|
            0 <= i < rows.len() && is_agent_of(rows[i], project, major)
                && rows[i].version_minor is Some && rows[i].version_minor.unwrap()
                == max_agent_version(rows, project, major),
    decreases rows.len(),
{
    if rows.len() > 0 {
        let t = rows.drop_last();
        lemma_max_agent(t, project, major);
        assert forall|i: int|
            0 <= i < rows.len() && is_agent_of(#[trigger] rows[i], project, major)
                && rows[i].version_minor is Some implies rows[i].version_minor.unwrap()
                <= max_agent_version(rows, project, major) by {
            if i < t.len() {
                assert(t[i] == rows[i]);
            }
        }
        if max_agent_version(rows, project, major) != 0 && max_agent_version(rows, project, major)
            == max_agent_version(t, project, major) {
            let i = choose|i: int|
                0 <= i < t.len() && is_agent_of(t[i], project, major) && t[i].version_minor is Some
                    && t[i].version_minor.unwrap() == max_agent_version(t, project, major);
            assert(rows[i] == t[i]);
        }
    }
}

/// No master version of a project is below zero.
pub proof fn lemma_max_master_nonneg(rows: Seq<Snapshot>, project: Seq<char>)
    ensures
        max_master_version(rows, project) >= 0,
{
    lemma_max_master(rows, project);
}

/// No agent version is below zero.
pub proof fn lemma_max_agent_nonneg(rows: Seq<Snapshot>, project: Seq<char>, major: int)
    ensures
        max_agent_version(rows, project, major) >= 0,
{
    lemma_max_agent(rows, project, major);
}

/// Master versions have no gaps: when a project's masters are `{1..k}`, a
/// new master that takes the next version makes them `{1..k+1}`.
pub proof fn law_master_versions_contiguous(m: StoreModel, project: Seq<char>, s: Snapshot, now: i64, k: int)
    requires
        k >= 0,
        master_versions(m.snapshots, project) == one_to(k),
        is_master_of(s, project),
        s.version_major == max_master_version(m.snapshots, project) + 1,
    ensures
        master_versions(with_snapshot(m, s, now).snapshots, project) == one_to(k + 1),
{
    let rows = m.snapshots;
    lemma_max_master(rows, project);
    let mx = max_master_version(rows, project);
    if mx != 0 {
        let i = choose|i: int|
            0 <= i < rows.len() && is_master_of(rows[i], project) && rows[i].version_major == mx;
        assert(master_versions(rows, project).contains(mx));
    }
    if k >= 1 {
        assert(one_to(k).contains(k));
        let i = choose|i: int|
            0 <= i < rows.len() && is_master_of(rows[i], project) && rows[i].version_major == k;
        assert(rows[i].version_major <= mx);
    }
    assert(mx == k);
    let rows2 = with_snapshot(m, s, now).snapshots;
    assert(rows2.last().version_major == k + 1);
    assert forall|v: int| #[trigger] master_versions(rows2, project).contains(v) == one_to(k + 1).contains(v) by {
        if one_to(k + 1).contains(v) {
            if v == k + 1 {
                assert(is_master_of(rows2[rows.len() as int], project));
            } else {
                assert(master_versions(rows, project).contains(v));
                let i = choose|i: int|
                    0 <= i < rows.len() && is_master_of(rows[i], project) && rows[i].version_major == v;
                assert(rows2[i] == rows[i]);
            }
        }
        if master_versions(rows2, project).contains(v) {
            let i = choose|i: int|
                0 <= i < rows2.len() && is_master_of(rows2[i], project) && rows2[i].version_major == v;
            if i < rows.len() {
                assert(rows2[i] == rows[i]);
                assert(master_versions(rows, project).contains(v));
            }
        }
    }
    assert(master_versions(rows2, project) =~= one_to(k + 1));
}

/// A rewind of a project whose masters are `{1..k}` to master `kk <= k`
/// leaves masters `{1..kk}`: every deleted master was above `kk`, and every
/// other row (agent snapshots included) stays.
pub proof fn law_rewind_truncates_masters(rows: Seq<Snapshot>, project: Seq<char>, k: int, kk: int)
    requires
        0 <= kk <= k,
        master_versions(rows, project) == one_to(k),
    ensures
        master_versions(rows.filter(kept_by_rewind(project, kk)), project) == one_to(kk),
        forall|i: int|
            0 <= i < rows.len() && !is_master_of(#[trigger] rows[i], project) ==> rows.filter(
                kept_by_rewind(project, kk),
            ).contains(rows[i]),
        forall|i: int|
            0 <= i < rows.len() && is_master_of(#[trigger] rows[i], project) && !rows.filter(
                kept_by_rewind(project, kk),
            ).contains(rows[i]) ==> rows[i].version_major > kk,
{
    let p = kept_by_rewind(project, kk);
    let f = rows.filter(p);
    broadcast use vstd::seq_lib::group_filter_ensures;

    assert forall|v: int| #[trigger] master_versions(f, project).contains(v) == one_to(kk).contains(v) by {
        if one_to(kk).contains(v) {
            assert(one_to(k).contains(v));
            let i = choose|i: int|
                0 <= i < rows.len() && is_master_of(rows[i], project) && rows[i].version_major == v;
            assert(p(rows[i]));
            assert(f.contains(rows[i]));
            let j = choose|j: int| 0 <= j < f.len() && f[j] == rows[i];
            assert(is_master_of(f[j], project) && f[j].version_major == v);
        }
        if master_versions(f, project).contains(v) {
            let j = choose|j: int| 0 <= j < f.len() && is_master_of(f[j], project) && f[j].version_major == v;
            assert(p(f[j]));
            rows.lemma_filter_contains_rev(p, f[j]);
            assert(rows.contains(f[j]));
            let i = choose|i: int| 0 <= i < rows.len() && rows[i] == f[j];
            assert(master_versions(rows, project).contains(v));
        }
    }
    assert(master_versions(f, project) =~= one_to(kk));
    assert forall|i: int|
        0 <= i < rows.len() && !is_master_of(#[trigger] rows[i], project) implies f.contains(rows[i]) by {
        assert(p(rows[i]));
    }
    assert forall|i: int|
        0 <= i < rows.len() && is_master_of(#[trigger] rows[i], project) && !f.contains(rows[i])
        implies rows[i].version_major > kk by {
        if rows[i].version_major <= kk {
            assert(p(rows[i]));
        }
    }
}

/// Agent versions have no gaps: when the agents on master `major` are
/// `{1..j}`, a new agent that takes the next version makes them `{1..j+1}`.
pub proof fn law_agent_versions_contiguous(
    m: StoreModel,
    project: Seq<char>,
    major: int,
    s: Snapshot,
    now: i64,
    j: int,
)
    requires
        0 <= j < i32::MAX,
        agent_versions(m.snapshots, project, major) == one_to(j),
        is_agent_of(s, project, major),
        s.version_minor is Some,
        s.version_minor.unwrap() == max_agent_version(m.snapshots, project, major) + 1,
    ensures
        agent_versions(with_snapshot(m, s, now).snapshots, project, major) == one_to(j + 1),
{
    let rows = m.snapshots;
    lemma_max_agent(rows, project, major);
    let mx = max_agent_version(rows, project, major);
    if mx != 0 {
        let i = choose|i: int|
            0 <= i < rows.len() && is_agent_of(rows[i], project, major)
                && rows[i].version_minor is Some && rows[i].version_minor.unwrap() == mx;
        assert(agent_versions(rows, project, major).contains(mx));
    }
    if j >= 1 {
        assert(one_to(j).contains(j));
        let i = choose|i: int|
            0 <= i < rows.len() && is_agent_of(rows[i], project, major)
                && rows[i].version_minor is Some && rows[i].version_minor.unwrap() == j;
        assert(j <= mx);
    }
    assert(mx == j);
    let rows2 = with_snapshot(m, s, now).snapshots;
    assert forall|v: int| #[trigger] agent_versions(rows2, project, major).contains(v) == one_to(j + 1).contains(v) by {
        if one_to(j + 1).contains(v) {
            if v == j + 1 {
                assert(is_agent_of(rows2[rows.len() as int], project, major));
                assert(rows2[rows.len() as int].version_minor.unwrap() == v);
            } else {
                assert(agent_versions(rows, project, major).contains(v));
                let i = choose|i: int|
                    0 <= i < rows.len() && is_agent_of(rows[i], project, major)
                        && rows[i].version_minor is Some && rows[i].version_minor.unwrap() == v;
                assert(rows2[i] == rows[i]);
            }
        }
        if agent_versions(rows2, project, major).contains(v) {
            let i = choose|i: int|
                0 <= i < rows2.len() && is_agent_of(rows2[i], project, major)
                    && rows2[i].version_minor is Some && rows2[i].version_minor.unwrap() == v;
            if i < rows.len() {
                assert(rows2[i] == rows[i]);
                assert(agent_versions(rows, project, major).contains(v));
            }
        }
    }
    assert(agent_versions(rows2, project, major) =~= one_to(j + 1));
}

impl Snapshot {
    /// A field-by-field copy.
    pub fn copy(&self) -> (r: Snapshot)
        ensures
            r == *self,
    {
        Snapshot {
            id: self.id,
            project_path: self.project_path.clone(),
            snapshot_type: self.snapshot_type,
            parent_snapshot_id: self.parent_snapshot_id,
            message: self.message.clone(),
            user_message: copy_opt_string(&self.user_message),
            changed_files: self.changed_files.clone(),
            diff_summary: copy_opt_string(&self.diff_summary),
            metadata: copy_opt_string(&self.metadata),
            git_commit_hash: copy_opt_string(&self.git_commit_hash),
            git_tag: copy_opt_string(&self.git_tag),
            git_branch: copy_opt_string(&self.git_branch),
            version_major: self.version_major,
            version_minor: self.version_minor,
            created_at: self.created_at,
        }
    }
}

impl ChunkStore {
    /// Stores a snapshot row; returns its identifier.
    pub fn create_snapshot(&mut self, snapshot: Snapshot, now: i64) -> (r: Result<i64, StoreError>)
        requires
            store_wf(old(self)@),
            snapshot.version_major >= 0,
        ensures
            store_wf(final(self)@),
            old(self).next_snapshot_id < i64::MAX ==> r == Ok::<i64, StoreError>(
                old(self).next_snapshot_id,
            ) && final(self)@ == with_snapshot(old(self)@, snapshot, now),
            old(self).next_snapshot_id == i64::MAX ==> r == Err::<i64, StoreError>(
                StoreError::IdsExhausted,
            ) && final(self)@ == old(self)@,
    {
        if self.next_snapshot_id == i64::MAX {
            return Err(StoreError::IdsExhausted);
        }
        let id = self.next_snapshot_id;
        let mut row = snapshot;
        row.id = Some(id);
        row.created_at = now;
        self.snapshots.push(row);
        self.next_snapshot_id = id + 1;
        Ok(id)
    }

    /// The first snapshot with identifier `id`.
    pub fn get_snapshot(&self, id: i64) -> (r: Option<Snapshot>)
        ensures
            match first_match(self.snapshots@, snapshot_with_id(id)) {
                Some(i) => r == Some(self.snapshots@[i]),
                None => r is None,
            },
    {
        let n = self.snapshots.len();
        let mut i: usize = 0;
        while i < n
            invariant
                n == self.snapshots@.len(),
                0 <= i <= n,
                forall|j: int| 0 <= j < i ==> !snapshot_with_id(id)(#[trigger] self.snapshots@[j]),
            decreases n - i,
        {
            if self.snapshots[i].id == Some(id) {
                proof {
                    lemma_first_match(self.snapshots@, snapshot_with_id(id), i as int);
                }
                return Some(self.snapshots[i].copy());
            }
            i = i + 1;
        }
        proof {
            lemma_no_match(self.snapshots@, snapshot_with_id(id));
        }
        None
    }

    /// The snapshots of `project` (of one kind, if given), in timeline order.
    pub fn get_snapshots(&self, project_path: &str, kind: Option<SnapshotType>) -> (r: Vec<Snapshot>)
        ensures
            r@ == ordered::<Snapshot, ByVersion>(
                self.snapshots@.filter(listed_snapshot(project_path@, kind)),
            ),
    {
        let project = String::from_str(project_path);
        let ghost pred = listed_snapshot(project_path@, kind);
        let mut out: Vec<Snapshot> = Vec::new();
        let n = self.snapshots.len();
        let mut i: usize = 0;
        while i < n
            invariant
                n == self.snapshots@.len(),
                0 <= i <= n,
                project@ == project_path@,
                pred == listed_snapshot(project_path@, kind),
                out@ == self.snapshots@.take(i as int).filter(pred),
            decreases n - i,
        {
            proof {
                lemma_filter_step(self.snapshots@, i as int, pred);
            }
            let s = &self.snapshots[i];
            let kind_ok = match kind {
                Some(k) => s.snapshot_type == k,
                None => true,
            };
            if s.project_path == project && kind_ok {
                out.push(s.copy());
            }
            i = i + 1;
        }
        assert(self.snapshots@.take(n as int) =~= self.snapshots@);
        sort_rows::<Snapshot, ByVersion>(out)
    }

    /// The version the next master snapshot of `project` takes: one above
    /// the largest so far, 1 for the first.
    pub fn next_master_version(&self, project_path: &str) -> (r: Result<i32, SnapshotError>)
        ensures
            max_master_version(self.snapshots@, project_path@) < i32::MAX ==> r == Ok::<
                i32,
                SnapshotError,
            >((max_master_version(self.snapshots@, project_path@) + 1) as i32),
            max_master_version(self.snapshots@, project_path@) >= i32::MAX ==> r == Err::<
                i32,
                SnapshotError,
            >(SnapshotError::VersionOverflow),
    {
        let project = String::from_str(project_path);
        let mut best: i32 = 0;
        let n = self.snapshots.len();
        let mut i: usize = 0;
        assert(self.snapshots@.take(0) =~= Seq::<Snapshot>::empty());
        while i < n
            invariant
                n == self.snapshots@.len(),
                0 <= i <= n,
                project@ == project_path@,
                best == max_master_version(self.snapshots@.take(i as int), project_path@),
            decreases n - i,
        {
            proof {
                assert(self.snapshots@.take(i + 1).drop_last() =~= self.snapshots@.take(i as int));
                assert(self.snapshots@.take(i + 1).last() == self.snapshots@[i as int]);
            }
            let s = &self.snapshots[i];
            if s.snapshot_type == SnapshotType::Master && s.project_path == project
                && s.version_major > best {
                best = s.version_major;
            }
            i = i + 1;
        }
        assert(self.snapshots@.take(n as int) =~= self.snapshots@);
        if best == i32::MAX {
            Err(SnapshotError::VersionOverflow)
        } else {
            Ok(best + 1)
        }
    }

    /// The version the next agent snapshot on master `master_version` of
    /// `project` takes: one above the largest so far, 1 for the first.
    pub fn next_agent_version(&self, project_path: &str, master_version: i32) -> (r: Result<
        i32,
        SnapshotError,
    >)
        ensures
            max_agent_version(self.snapshots@, project_path@, master_version as int) < i32::MAX
                ==> r == Ok::<i32, SnapshotError>(
                (max_agent_version(self.snapshots@, project_path@, master_version as int)
                    + 1) as i32,
            ),
            max_agent_version(self.snapshots@, project_path@, master_version as int) >= i32::MAX
                ==> r == Err::<i32, SnapshotError>(SnapshotError::VersionOverflow),
    {
        let project = String::from_str(project_path);
        let mut best: i32 = 0;
        let n = self.snapshots.len();
        let mut i: usize = 0;
        assert(self.snapshots@.take(0) =~= Seq::<Snapshot>::empty());
        while i < n
            invariant
                n == self.snapshots@.len(),
                0 <= i <= n,
                project@ == project_path@,
                best == max_agent_version(
                    self.snapshots@.take(i as int),
                    project_path@,
                    master_version as int,
                ),
            decreases n - i,
        {
            proof {
                assert(self.snapshots@.take(i + 1).drop_last() =~= self.snapshots@.take(i as int));
                assert(self.snapshots@.take(i + 1).last() == self.snapshots@[i as int]);
            }
            let s = &self.snapshots[i];
            let minor: i32 = match s.version_minor {
                Some(v) => v,
                None => 0,
            };
            if s.snapshot_type == SnapshotType::Agent && s.project_path == project
                && s.version_major == master_version && minor > best {
                best = minor;
            }
            i = i + 1;
        }
        assert(self.snapshots@.take(n as int) =~= self.snapshots@);
        if best == i32::MAX {
            Err(SnapshotError::VersionOverflow)
        } else {
            Ok(best + 1)
        }
    }

    /// Deletes the master snapshots of `project` above version `major`;
    /// agent snapshots stay.
    pub fn delete_masters_after(&mut self, project_path: &str, major: i32)
        requires
            store_wf(old(self)@),
        ensures
            store_wf(final(self)@),
            final(self)@ == (StoreModel {
                snapshots: old(self)@.snapshots.filter(kept_by_rewind(project_path@, major as int)),
                ..old(self)@
            }),
    {
        let project = String::from_str(project_path);
        let ghost pred = kept_by_rewind(project_path@, major as int);
        let mut out: Vec<Snapshot> = Vec::new();
        let n = self.snapshots.len();
        let mut i: usize = 0;
        while i < n
            invariant
                n == self.snapshots@.len(),
                0 <= i <= n,
                self@ == old(self)@,
                store_wf(self@),
                project@ == project_path@,
                pred == kept_by_rewind(project_path@, major as int),
                out@ == self.snapshots@.take(i as int).filter(pred),
            decreases n - i,
        {
            proof {
                lemma_filter_step(self.snapshots@, i as int, pred);
            }
            let s = &self.snapshots[i];
            if !(s.snapshot_type == SnapshotType::Master && s.project_path == project
                && s.version_major > major) {
                out.push(s.copy());
            }
            i = i + 1;
        }
        assert(self.snapshots@.take(n as int) =~= self.snapshots@);
        proof {
            broadcast use vstd::seq_lib::group_filter_ensures;
            assert forall|k: int| 0 <= k < out@.len() implies (#[trigger] out@[k]).version_major >= 0 by {
                assert(self.snapshots@.contains(out@[k])) by {
                    self.snapshots@.lemma_filter_contains_rev(pred, out@[k]);
                }
            }
        }
        self.snapshots = out;
    }
}

} // verus!
