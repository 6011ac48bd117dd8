use chunking::snapshots::{GitStep, plan_agent_snapshot, plan_master_snapshot, plan_rewind, record_agent_snapshot, record_master_snapshot};
use chunking::store::ChunkStore;
use chunking::timeline::SnapshotError;
use chunking::types::SnapshotType;

fn master(store: &mut ChunkStore, msg: &str, commit: &str) -> i64 {
    let plan = plan_master_snapshot(store, "/p", msg).unwrap();
    record_master_snapshot(store, "/p", msg, &plan, commit, &vec!["a.rs".to_string()], 1).unwrap()
}

fn agent(store: &mut ChunkStore, master_id: i64, msg: &str, commit: &str) -> i64 {
    let plan = plan_agent_snapshot(store, "/p", master_id, msg).unwrap();
    record_agent_snapshot(store, "/p", master_id, msg, &plan, commit, &Vec::new(), 2).unwrap()
}

#[test]
fn master_and_agent_sequencing() {
    let mut store = ChunkStore::new();
    let plan = plan_master_snapshot(&store, "/p", "A").unwrap();
    assert_eq!(plan.version, 1);
    assert_eq!(plan.tag, "v1");
    assert_eq!(plan.branch, "main");
    assert_eq!(plan.commit_message, "Master snapshot V1: A");
    let v1 = record_master_snapshot(&mut store, "/p", "A", &plan, "c1", &vec!["a.rs".to_string()], 1).unwrap();
    let row = store.get_snapshot(v1).unwrap();
    assert_eq!(row.changed_files, "[\"a.rs\"]");
    assert_eq!(row.diff_summary.as_deref(), Some("1 files changed"));
    assert_eq!(row.version_minor, None);

    let a = plan_agent_snapshot(&store, "/p", v1, "a1").unwrap();
    assert_eq!((a.master_version, a.agent_version), (1, 1));
    assert_eq!(a.tag, "v1.1");
    assert_eq!(a.branch, "agent/v1.1");
    assert_eq!(a.base_commit, "c1");
    assert_eq!(a.commit_message, "Agent snapshot V1.1: a1");
    let a1 = record_agent_snapshot(&mut store, "/p", v1, "a1", &a, "c2", &Vec::new(), 2).unwrap();
    let arow = store.get_snapshot(a1).unwrap();
    assert_eq!(arow.parent_snapshot_id, Some(v1));
    assert_eq!(arow.metadata.as_deref(), Some("{\"agent_version\":1,\"master_version\":1}"));
    assert_eq!(arow.version_minor, Some(1));

    let v2 = master(&mut store, "B", "c3");
    assert_eq!(store.get_snapshot(v2).unwrap().git_tag.as_deref(), Some("v2"));
    let b1 = agent(&mut store, v2, "b1", "c4");
    assert_eq!(store.get_snapshot(b1).unwrap().git_tag.as_deref(), Some("v2.1"));
    let a2 = plan_agent_snapshot(&store, "/p", v1, "a2").unwrap();
    assert_eq!(a2.tag, "v1.2");
}

#[test]
fn rewind_preserves_agents() {
    let mut store = ChunkStore::new();
    let v1 = master(&mut store, "A", "c1");
    agent(&mut store, v1, "a1", "c2");
    let v2 = master(&mut store, "B", "c3");
    agent(&mut store, v2, "b1", "c4");
    let plan = plan_rewind(&store, v1).unwrap();
    assert_eq!(plan.commit_hash, "c1");
    assert_eq!(plan.version_major, 1);
    store.delete_masters_after(&plan.project_path, plan.version_major);
    let masters = store.get_snapshots("/p", Some(SnapshotType::Master));
    assert_eq!(masters.len(), 1);
    assert_eq!(masters[0].id, Some(v1));
    let agents = store.get_snapshots("/p", Some(SnapshotType::Agent));
    let tags: Vec<String> = agents.iter().map(|s| s.git_tag.clone().unwrap()).collect();
    assert_eq!(tags, vec!["v2.1".to_string(), "v1.1".to_string()]);
    assert_eq!(plan_master_snapshot(&store, "/p", "C").unwrap().version, 2);
}

#[test]
fn rewind_refusals() {
    let mut store = ChunkStore::new();
    let v1 = master(&mut store, "A", "c1");
    let a1 = agent(&mut store, v1, "a1", "c2");
    assert_eq!(plan_rewind(&store, a1).err(), Some(SnapshotError::NotMaster));
    assert_eq!(plan_rewind(&store, 99).err(), Some(SnapshotError::NotFound));
    assert_eq!(plan_agent_snapshot(&store, "/p", 99, "x").err(), Some(SnapshotError::NotFound));
}

#[test]
fn timeline_listing_order() {
    let mut store = ChunkStore::new();
    let v1 = master(&mut store, "A", "c1");
    agent(&mut store, v1, "a1", "c2");
    master(&mut store, "B", "c3");
    let all: Vec<String> = store.get_snapshots("/p", None).iter().map(|s| s.git_tag.clone().unwrap()).collect();
    assert_eq!(all, vec!["v2".to_string(), "v1.1".to_string(), "v1".to_string()]);
}

#[test]
fn plans_carry_git_steps() {
    let mut store = ChunkStore::new();
    let plan = plan_master_snapshot(&store, "/p", "A").unwrap();
    match &plan.steps[..] {
        [GitStep::CommitAndTag { reference, message, parent, tag }] => {
            assert_eq!(reference, "HEAD");
            assert_eq!(message, "Master snapshot V1: A");
            assert!(parent.is_none());
            assert_eq!(tag, "v1");
        }
        _ => panic!("unexpected master steps"),
    }
    let v1 = record_master_snapshot(&mut store, "/p", "A", &plan, "c1", &Vec::new(), 1).unwrap();
    let a = plan_agent_snapshot(&store, "/p", v1, "a1").unwrap();
    assert_eq!(a.steps.len(), 4);
    match &a.steps[0] {
        GitStep::CreateBranch { name, at } => {
            assert_eq!(name, "agent/v1.1");
            assert_eq!(at, "c1");
        }
        _ => panic!("unexpected first agent step"),
    }
    match &a.steps[3] {
        GitStep::Checkout { reference } => assert_eq!(reference, "refs/heads/main"),
        _ => panic!("agent steps must end on main"),
    }
    let r = plan_rewind(&store, v1).unwrap();
    match &r.steps[..] {
        [GitStep::ResetHard { commit }] => assert_eq!(commit, "c1"),
        _ => panic!("unexpected rewind steps"),
    }
}

#[test]
fn plans_name_the_commit_signature() {
    let mut store = ChunkStore::new();
    let plan = plan_master_snapshot(&store, "/p", "A").unwrap();
    assert_eq!(plan.author_name, "Opcode User");
    assert_eq!(plan.author_email, "user@opcode.local");
    let v1 = record_master_snapshot(&mut store, "/p", "A", &plan, "c1", &Vec::new(), 1).unwrap();
    let a = plan_agent_snapshot(&store, "/p", v1, "a1").unwrap();
    assert_eq!(a.author_name, "Opcode Agent");
    assert_eq!(a.author_email, "agent@opcode.local");
}
