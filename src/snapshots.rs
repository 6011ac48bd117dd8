use crate::json::{json_array, push_json_array, texts};
use crate::store::{first_match, store_wf, ChunkStore, StoreError};
use crate::text::{decimal, push_decimal, push_str, string_of};
use crate::timeline::{
    max_agent_version, max_master_version, snapshot_with_id, with_snapshot, SnapshotError,
};
use crate::types::{Snapshot, SnapshotType};
use vstd::prelude::*;

verus! {

/// One operation on the Git working copy, performed in order by the host.
pub enum GitStep {
    /// Create branch `name` at commit `at`.
    CreateBranch { name: String, at: String },
    /// Point HEAD at `reference` and force-check it out.
    Checkout { reference: String },
    /// Stage every change, commit it on `reference` with `message` (parent:
    /// commit `parent`, or HEAD's commit when unset), and tag the new commit
    /// `tag` (lightweight).
    CommitAndTag { reference: String, message: String, parent: Option<String>, tag: String },
    /// Hard-reset the working copy and the current branch to `commit`.
    ResetHard { commit: String },
}

/// The reference `refs/heads/main`.
pub open spec fn main_ref() -> Seq<char> {
    "refs/heads/main"@
}

/// The steps end by checking out `refs/heads/main`.
pub open spec fn ends_on_main(steps: Seq<GitStep>) -> bool {
    steps.len() > 0 && match steps.last() {
        GitStep::Checkout { reference } => reference@ == main_ref(),
        _ => false,
    }
}

/// The steps of a master snapshot: one commit on HEAD, tagged.
pub open spec fn master_steps(steps: Seq<GitStep>, message: Seq<char>, tag: Seq<char>) -> bool {
    steps.len() == 1 && match steps[0] {
        GitStep::CommitAndTag { reference, message: m, parent, tag: t } => reference@ == "HEAD"@
            && m@ == message && parent is None && t@ == tag,
        _ => false,
    }
}

/// The steps of an agent snapshot: branch off the master commit, check the
/// branch out, commit on it with the master commit as parent, tag, and
/// check `main` out again.
pub open spec fn agent_steps(
    steps: Seq<GitStep>,
    branch: Seq<char>,
    base: Seq<char>,
    message: Seq<char>,
    tag: Seq<char>,
) -> bool {
    &&& steps.len() == 4
    &&& match steps[0] {
        GitStep::CreateBranch { name, at } => name@ == branch && at@ == base,
        _ => false,
    }
    &&& match steps[1] {
        GitStep::Checkout { reference } => reference@ == "refs/heads/"@ + branch,
        _ => false,
    }
    &&& match steps[2] {
        GitStep::CommitAndTag { reference, message: m, parent, tag: t } => reference@
            == "refs/heads/"@ + branch && m@ == message && t@ == tag && match parent {
            Some(p) => p@ == base,
            None => false,
        },
        _ => false,
    }
    &&& ends_on_main(steps)
}

/// The steps of a rewind: one hard reset to `commit`.
pub open spec fn rewind_steps(steps: Seq<GitStep>, commit: Seq<char>) -> bool {
    steps.len() == 1 && match steps[0] {
        GitStep::ResetHard { commit: c } => c@ == commit,
        _ => false,
    }
}

/// What the steps are known to do to a working copy: the reference HEAD
/// names, the commit the current branch points at (`None` once a step moved
/// it to a commit not known here), and the branches that exist.
pub struct GitView {
    pub head: Seq<char>,
    pub tip: Option<Seq<char>>,
    pub branches: Set<Seq<char>>,
}

/// The effect of one step.
pub open spec fn apply_step(g: GitView, step: GitStep) -> GitView {
    match step {
        GitStep::CreateBranch { name, at } => GitView { branches: g.branches.insert(name@), ..g },
        GitStep::Checkout { reference } => GitView { head: reference@, tip: None, ..g },
        GitStep::CommitAndTag { .. } => GitView { tip: None, ..g },
        GitStep::ResetHard { commit } => GitView { tip: Some(commit@), ..g },
    }
}

/// The effect of a sequence of steps.
pub open spec fn run_steps(steps: Seq<GitStep>, g: GitView) -> GitView
    decreases steps.len(),
{
    if steps.len() == 0 {
        g
    } else {
        apply_step(run_steps(steps.drop_last(), g), steps.last())
    }
}

/// No step removes a branch: every branch that existed still does.
pub proof fn law_steps_keep_branches(steps: Seq<GitStep>, g: GitView, b: Seq<char>)
    requires
        g.branches.contains(b),
    ensures
        run_steps(steps, g).branches.contains(b),
    decreases steps.len(),
{
    if steps.len() > 0 {
        law_steps_keep_branches(steps.drop_last(), g, b);
    }
}

/// After the steps of an agent snapshot, HEAD names `refs/heads/main`, and
/// the new agent branch exists.
pub proof fn law_agent_snapshot_returns_to_main(
    steps: Seq<GitStep>,
    branch: Seq<char>,
    base: Seq<char>,
    message: Seq<char>,
    tag: Seq<char>,
    g: GitView,
)
    requires
        agent_steps(steps, branch, base, message, tag),
    ensures
        run_steps(steps, g).head == main_ref(),
        run_steps(steps, g).branches.contains(branch),
{
    let s1 = steps.take(1);
    assert(s1.drop_last() =~= Seq::<GitStep>::empty());
    assert(run_steps(s1, g).branches.contains(branch));
    assert(steps.take(2).drop_last() =~= s1);
    assert(steps.take(3).drop_last() =~= steps.take(2));
    assert(steps.take(4) =~= steps);
    assert(steps.drop_last() =~= steps.take(3));
    law_steps_keep_branches(steps.skip(1), run_steps(s1, g), branch);
    assert(run_steps(steps.take(2), g).branches.contains(branch));
    assert(run_steps(steps.take(3), g).branches.contains(branch));
}

/// After the steps of a rewind, the current branch points at the snapshot's
/// commit; HEAD and the set of branches are as before.
pub proof fn law_rewind_resets_to_commit(steps: Seq<GitStep>, commit: Seq<char>, g: GitView)
    requires
        rewind_steps(steps, commit),
    ensures
        run_steps(steps, g).tip == Some(commit),
        run_steps(steps, g).head == g.head,
        run_steps(steps, g).branches == g.branches,
{
    assert(steps.drop_last() =~= Seq::<GitStep>::empty());
    assert(run_steps(steps.drop_last(), g) == g);
    assert(run_steps(steps, g) == apply_step(g, steps[0]));
}

/// What the Git side of a master snapshot is to do (`steps`), and the
/// names it uses.
pub struct MasterPlan {
    pub version: i32,
    /// The commit's author and committer.
    pub author_name: String,
    pub author_email: String,
    pub tag: String,
    pub branch: String,
    pub commit_message: String,
    pub steps: Vec<GitStep>,
}

/// What the Git side of an agent snapshot is to do (`steps`), and the
/// names it uses.
pub struct AgentPlan {
    pub master_version: i32,
    /// The commit's author and committer.
    pub author_name: String,
    pub author_email: String,
    pub agent_version: i32,
    pub tag: String,
    pub branch: String,
    pub commit_message: String,
    pub base_commit: String,
    pub steps: Vec<GitStep>,
}

/// What a rewind is to do: the Git `steps` on the working copy of
/// `project_path`, then drop the masters above `version_major`.
pub struct RewindPlan {
    pub project_path: String,
    pub commit_hash: String,
    pub version_major: i32,
    pub steps: Vec<GitStep>,
}

/// `v{major}`.
pub open spec fn master_tag(major: int) -> Seq<char> {
    "v"@ + decimal(major as nat)
}

/// `{major}.{minor}`.
pub open spec fn version_pair(major: int, minor: int) -> Seq<char> {
    decimal(major as nat) + "."@ + decimal(minor as nat)
}

/// `Master snapshot V{major}: {message}`.
pub open spec fn master_commit_message(major: int, message: Seq<char>) -> Seq<char> {
    "Master snapshot V"@ + decimal(major as nat) + ": "@ + message
}

/// `Agent snapshot V{major}.{minor}: {message}`.
pub open spec fn agent_commit_message(major: int, minor: int, message: Seq<char>) -> Seq<char> {
    "Agent snapshot V"@ + version_pair(major, minor) + ": "@ + message
}

/// `{n} files changed`.
pub open spec fn diff_summary_text(n: nat) -> Seq<char> {
    decimal(n) + " files changed"@
}

/// `{"agent_version":{minor},"master_version":{major}}`.
pub open spec fn agent_metadata_text(major: int, minor: int) -> Seq<char> {
    "{\"agent_version\":"@ + decimal(minor as nat) + ",\"master_version\":"@ + decimal(
        major as nat,
    ) + "}"@
}

/// The optional text is present and equal to `t`.
pub open spec fn text_is(o: Option<String>, t: Seq<char>) -> bool {
    match o {
        Some(s) => s@ == t,
        None => false,
    }
}

/// The row a master snapshot is stored as.
pub open spec fn is_master_row(
    s: Snapshot,
    project: Seq<char>,
    user_message: Seq<char>,
    version: int,
    commit_hash: Seq<char>,
    changed_files: Seq<Seq<char>>,
) -> bool {
    &&& s.project_path@ == project
    &&& s.snapshot_type == SnapshotType::Master
    &&& s.parent_snapshot_id is None
    &&& s.message@ == master_commit_message(version, user_message)
    &&& text_is(s.user_message, user_message)
    &&& s.changed_files@ == json_array(changed_files)
    &&& text_is(s.diff_summary, diff_summary_text(changed_files.len()))
    &&& s.metadata is None
    &&& text_is(s.git_commit_hash, commit_hash)
    &&& text_is(s.git_tag, master_tag(version))
    &&& text_is(s.git_branch, "main"@)
    &&& s.version_major == version
    &&& s.version_minor is None
}

/// The row an agent snapshot is stored as.
pub open spec fn is_agent_row(
    s: Snapshot,
    project: Seq<char>,
    master_snapshot_id: i64,
    message: Seq<char>,
    major: int,
    minor: int,
    commit_hash: Seq<char>,
    changed_files: Seq<Seq<char>>,
) -> bool {
    &&& s.project_path@ == project
    &&& s.snapshot_type == SnapshotType::Agent
    &&& s.parent_snapshot_id == Some(master_snapshot_id)
    &&& s.message@ == agent_commit_message(major, minor, message)
    &&& s.user_message is None
    &&& s.changed_files@ == json_array(changed_files)
    &&& text_is(s.diff_summary, diff_summary_text(changed_files.len()))
    &&& text_is(s.metadata, agent_metadata_text(major, minor))
    &&& text_is(s.git_commit_hash, commit_hash)
    &&& text_is(s.git_tag, "v"@ + version_pair(major, minor))
    &&& text_is(s.git_branch, "agent/v"@ + version_pair(major, minor))
    &&& s.version_major == major
    &&& s.version_minor == Some(minor as i32)
}

/// Appends `{major}.{minor}`.
fn push_version_pair(out: &mut Vec<char>, major: i32, minor: i32)
    requires
        major >= 0,
        minor >= 0,
    ensures
        final(out)@ == old(out)@ + version_pair(major as int, minor as int),
{
    push_decimal(out, major as u64);
    push_str(out, ".");
    push_decimal(out, minor as u64);
    assert(final(out)@ =~= old(out)@ + version_pair(major as int, minor as int));
}

/// Allocates the next master version of `project` and names its tag,
/// branch and commit message.
pub fn plan_master_snapshot(store: &ChunkStore, project_path: &str, user_message: &str) -> (r:
    Result<MasterPlan, SnapshotError>)
    ensures
        match r {
            Ok(p) => {
                &&& max_master_version(store.snapshots@, project_path@) < i32::MAX
                &&& p.version == max_master_version(store.snapshots@, project_path@) + 1
                &&& p.tag@ == master_tag(p.version as int)
                &&& p.branch@ == "main"@
                &&& p.commit_message@ == master_commit_message(p.version as int, user_message@)
                &&& master_steps(p.steps@, p.commit_message@, p.tag@)
                &&& p.author_name@ == "Opcode User"@ && p.author_email@ == "user@opcode.local"@
            },
            Err(e) => max_master_version(store.snapshots@, project_path@) >= i32::MAX && e
                == SnapshotError::VersionOverflow,
        },
{
    let version = match store.next_master_version(project_path) {
        Ok(v) => v,
        Err(e) => {
            return Err(e);
        },
    };
    proof {
        crate::timeline::lemma_max_master_nonneg(store.snapshots@, project_path@);
    }
    let mut tag: Vec<char> = Vec::new();
    push_str(&mut tag, "v");
    push_decimal(&mut tag, version as u64);
    let mut msg: Vec<char> = Vec::new();
    push_str(&mut msg, "Master snapshot V");
    push_decimal(&mut msg, version as u64);
    push_str(&mut msg, ": ");
    push_str(&mut msg, user_message);
    assert(tag@ =~= master_tag(version as int));
    assert(msg@ =~= master_commit_message(version as int, user_message@));
    let tag = string_of(&tag);
    let commit_message = string_of(&msg);
    let steps = vec![
        GitStep::CommitAndTag {
            reference: String::from_str("HEAD"),
            message: commit_message.clone(),
            parent: None,
            tag: tag.clone(),
        },
    ];
    Ok(
        MasterPlan {
            version,
            author_name: String::from_str("Opcode User"),
            author_email: String::from_str("user@opcode.local"),
            tag,
            branch: String::from_str("main"),
            commit_message,
            steps,
        },
    )
}

/// `{n} files changed`.
fn diff_summary_of(n: usize) -> (r: String)
    ensures
        r@ == diff_summary_text(n as nat),
{
    let mut out: Vec<char> = Vec::new();
    push_decimal(&mut out, n as u64);
    push_str(&mut out, " files changed");
    assert(out@ =~= diff_summary_text(n as nat));
    string_of(&out)
}

/// The changed-file list as a JSON array.
fn changed_files_json(changed_files: &Vec<String>) -> (r: String)
    ensures
        r@ == json_array(texts(changed_files@)),
{
    let mut out: Vec<char> = Vec::new();
    push_json_array(&mut out, changed_files);
    assert(out@ =~= json_array(texts(changed_files@)));
    string_of(&out)
}

/// Stores the row of a master snapshot whose commit Git has made.
pub fn record_master_snapshot(
    store: &mut ChunkStore,
    project_path: &str,
    user_message: &str,
    plan: &MasterPlan,
    commit_hash: &str,
    changed_files: &Vec<String>,
    now: i64,
) -> (r: Result<i64, SnapshotError>)
    requires
        store_wf(old(store)@),
        plan.version >= 0,
        plan.commit_message@ == master_commit_message(plan.version as int, user_message@),
        plan.tag@ == master_tag(plan.version as int),
    ensures
        store_wf(final(store)@),
        match r {
            Ok(id) => {
                &&& id == old(store).next_snapshot_id
                &&& exists|s: Snapshot|
                    is_master_row(
                        s,
                        project_path@,
                        user_message@,
                        plan.version as int,
                        commit_hash@,
                        texts(changed_files@),
                    ) && final(store)@ == with_snapshot(old(store)@, s, now)
            },
            Err(e) => final(store)@ == old(store)@ && e == SnapshotError::Store(
                StoreError::IdsExhausted,
            ) && old(store).next_snapshot_id == i64::MAX,
        },
        (r is Ok) == (old(store).next_snapshot_id < i64::MAX),
{
    let files = changed_files_json(changed_files);
    let row = Snapshot {
        id: None,
        project_path: String::from_str(project_path),
        snapshot_type: SnapshotType::Master,
        parent_snapshot_id: None,
        message: plan.commit_message.clone(),
        user_message: Some(String::from_str(user_message)),
        changed_files: files,
        diff_summary: Some(diff_summary_of(changed_files.len())),
        metadata: None,
        git_commit_hash: Some(String::from_str(commit_hash)),
        git_tag: Some(plan.tag.clone()),
        git_branch: Some(String::from_str("main")),
        version_major: plan.version,
        version_minor: None,
        created_at: now,
    };
    proof {
        assert(texts(changed_files@).len() == changed_files@.len());
    }
    match store.create_snapshot(row, now) {
        Ok(id) => Ok(id),
        Err(e) => Err(SnapshotError::Store(e)),
    }
}

/// Loads the master snapshot `master_snapshot_id`, allocates the next agent
/// version on it, and names the tag, branch and commit message.
pub fn plan_agent_snapshot(
    store: &ChunkStore,
    project_path: &str,
    master_snapshot_id: i64,
    message: &str,
) -> (r: Result<AgentPlan, SnapshotError>)
    requires
        store_wf(store@),
    ensures
        match first_match(store.snapshots@, snapshot_with_id(master_snapshot_id)) {
            None => r == Err::<AgentPlan, SnapshotError>(SnapshotError::NotFound),
            Some(i) => {
                let m = store.snapshots@[i];
                match m.git_commit_hash {
                    None => r == Err::<AgentPlan, SnapshotError>(SnapshotError::MissingCommit),
                    Some(h) => {
                        let mx = max_agent_version(store.snapshots@, project_path@, m.version_major as int);
                        match r {
                            Ok(p) => {
                                &&& mx < i32::MAX
                                &&& p.master_version == m.version_major
                                &&& p.agent_version == mx + 1
                                &&& p.base_commit@ == h@
                                &&& p.tag@ == "v"@ + version_pair(m.version_major as int, mx + 1)
                                &&& p.branch@ == "agent/v"@ + version_pair(m.version_major as int, mx + 1)
                                &&& p.commit_message@ == agent_commit_message(
                                    m.version_major as int,
                                    mx + 1,
                                    message@,
                                )
                                &&& agent_steps(p.steps@, p.branch@, h@, p.commit_message@, p.tag@)
                                &&& p.author_name@ == "Opcode Agent"@ && p.author_email@ == "agent@opcode.local"@
                            },
                            Err(e) => mx >= i32::MAX && e == SnapshotError::VersionOverflow,
                        }
                    },
                }
            },
        },
{
    let master = match store.get_snapshot(master_snapshot_id) {
        Some(s) => s,
        None => {
            return Err(SnapshotError::NotFound);
        },
    };
    let base_commit = match &master.git_commit_hash {
        Some(h) => h.clone(),
        None => {
            return Err(SnapshotError::MissingCommit);
        },
    };
    let major = master.version_major;
    proof {
        crate::store::lemma_first_match_in_range(store.snapshots@, snapshot_with_id(master_snapshot_id));
    }
    let minor = match store.next_agent_version(project_path, major) {
        Ok(v) => v,
        Err(e) => {
            return Err(e);
        },
    };
    proof {
        crate::timeline::lemma_max_agent_nonneg(store.snapshots@, project_path@, major as int);
    }
    let mut tag: Vec<char> = Vec::new();
    push_str(&mut tag, "v");
    push_version_pair(&mut tag, major, minor);
    let mut branch: Vec<char> = Vec::new();
    push_str(&mut branch, "agent/v");
    push_version_pair(&mut branch, major, minor);
    let mut msg: Vec<char> = Vec::new();
    push_str(&mut msg, "Agent snapshot V");
    push_version_pair(&mut msg, major, minor);
    push_str(&mut msg, ": ");
    push_str(&mut msg, message);
    assert(tag@ =~= "v"@ + version_pair(major as int, minor as int));
    assert(branch@ =~= "agent/v"@ + version_pair(major as int, minor as int));
    assert(msg@ =~= agent_commit_message(major as int, minor as int, message@));
    let tag = string_of(&tag);
    let branch = string_of(&branch);
    let commit_message = string_of(&msg);
    let mut branch_ref: Vec<char> = Vec::new();
    push_str(&mut branch_ref, "refs/heads/");
    push_str(&mut branch_ref, branch.as_str());
    let branch_ref = string_of(&branch_ref);
    let steps = vec![
        GitStep::CreateBranch { name: branch.clone(), at: base_commit.clone() },
        GitStep::Checkout { reference: branch_ref.clone() },
        GitStep::CommitAndTag {
            reference: branch_ref,
            message: commit_message.clone(),
            parent: Some(base_commit.clone()),
            tag: tag.clone(),
        },
        GitStep::Checkout { reference: String::from_str("refs/heads/main") },
    ];
    Ok(
        AgentPlan {
            master_version: major,
            author_name: String::from_str("Opcode Agent"),
            author_email: String::from_str("agent@opcode.local"),
            agent_version: minor,
            tag,
            branch,
            commit_message,
            base_commit,
            steps,
        },
    )
}

/// Stores the row of an agent snapshot whose commit Git has made.
pub fn record_agent_snapshot(
    store: &mut ChunkStore,
    project_path: &str,
    master_snapshot_id: i64,
    message: &str,
    plan: &AgentPlan,
    commit_hash: &str,
    changed_files: &Vec<String>,
    now: i64,
) -> (r: Result<i64, SnapshotError>)
    requires
        store_wf(old(store)@),
        plan.master_version >= 0,
        plan.agent_version >= 0,
        plan.commit_message@ == agent_commit_message(
            plan.master_version as int,
            plan.agent_version as int,
            message@,
        ),
        plan.tag@ == "v"@ + version_pair(plan.master_version as int, plan.agent_version as int),
        plan.branch@ == "agent/v"@ + version_pair(
            plan.master_version as int,
            plan.agent_version as int,
        ),
    ensures
        store_wf(final(store)@),
        match r {
            Ok(id) => {
                &&& id == old(store).next_snapshot_id
                &&& exists|s: Snapshot|
                    is_agent_row(
                        s,
                        project_path@,
                        master_snapshot_id,
                        message@,
                        plan.master_version as int,
                        plan.agent_version as int,
                        commit_hash@,
                        texts(changed_files@),
                    ) && final(store)@ == with_snapshot(old(store)@, s, now)
            },
            Err(e) => final(store)@ == old(store)@ && e == SnapshotError::Store(
                StoreError::IdsExhausted,
            ) && old(store).next_snapshot_id == i64::MAX,
        },
        (r is Ok) == (old(store).next_snapshot_id < i64::MAX),
{
    let files = changed_files_json(changed_files);
    let mut meta: Vec<char> = Vec::new();
    push_str(&mut meta, "{\"agent_version\":");
    push_decimal(&mut meta, plan.agent_version as u64);
    push_str(&mut meta, ",\"master_version\":");
    push_decimal(&mut meta, plan.master_version as u64);
    push_str(&mut meta, "}");
    assert(meta@ =~= agent_metadata_text(plan.master_version as int, plan.agent_version as int));
    let row = Snapshot {
        id: None,
        project_path: String::from_str(project_path),
        snapshot_type: SnapshotType::Agent,
        parent_snapshot_id: Some(master_snapshot_id),
        message: plan.commit_message.clone(),
        user_message: None,
        changed_files: files,
        diff_summary: Some(diff_summary_of(changed_files.len())),
        metadata: Some(string_of(&meta)),
        git_commit_hash: Some(String::from_str(commit_hash)),
        git_tag: Some(plan.tag.clone()),
        git_branch: Some(plan.branch.clone()),
        version_major: plan.master_version,
        version_minor: Some(plan.agent_version),
        created_at: now,
    };
    proof {
        assert(texts(changed_files@).len() == changed_files@.len());
    }
    match store.create_snapshot(row, now) {
        Ok(id) => Ok(id),
        Err(e) => Err(SnapshotError::Store(e)),
    }
}

/// Loads snapshot `snapshot_id` for a rewind: it must exist, be a master
/// and carry a commit.
pub fn plan_rewind(store: &ChunkStore, snapshot_id: i64) -> (r: Result<RewindPlan, SnapshotError>)
    ensures
        match first_match(store.snapshots@, snapshot_with_id(snapshot_id)) {
            None => r == Err::<RewindPlan, SnapshotError>(SnapshotError::NotFound),
            Some(i) => {
                let s = store.snapshots@[i];
                if s.snapshot_type != SnapshotType::Master {
                    r == Err::<RewindPlan, SnapshotError>(SnapshotError::NotMaster)
                } else {
                    match s.git_commit_hash {
                        None => r == Err::<RewindPlan, SnapshotError>(SnapshotError::MissingCommit),
                        Some(h) => match r {
                            Ok(p) => p.project_path@ == s.project_path@ && p.commit_hash@ == h@
                                && p.version_major == s.version_major && rewind_steps(p.steps@, h@),
                            Err(_) => false,
                        },
                    }
                }
            },
        },
{
    let s = match store.get_snapshot(snapshot_id) {
        Some(s) => s,
        None => {
            return Err(SnapshotError::NotFound);
        },
    };
    if s.snapshot_type != SnapshotType::Master {
        return Err(SnapshotError::NotMaster);
    }
    match &s.git_commit_hash {
        Some(h) => Ok(
            RewindPlan {
                project_path: s.project_path.clone(),
                commit_hash: h.clone(),
                version_major: s.version_major,
                steps: vec![GitStep::ResetHard { commit: h.clone() }],
            },
        ),
        None => Err(SnapshotError::MissingCommit),
    }
}

} // verus!
