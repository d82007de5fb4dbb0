use pmux::runtime::agent_runtime::RuntimeError;
use pmux::runtime::backends::local_pty::{
    agent_pane_id, batch_chunks, runtime_pane_id, LocalPtyAgent, LocalPtyRuntime, DIFF_COMMAND,
};

#[test]
fn test_local_pane_ids() {
    assert_eq!(runtime_pane_id("/tmp/wt"), "local:/tmp/wt");
    assert_eq!(agent_pane_id("/tmp/wt", "main"), "local:/tmp/wt:main");
}

#[test]
fn test_runtime_pane_answers_only_its_pane() {
    let mut p = LocalPtyRuntime::new("/tmp/wt", 120, 40);
    assert_eq!(p.pane_id, "local:/tmp/wt");
    assert!(p.check_pane("local:/tmp/wt").is_ok());
    assert!(matches!(p.check_pane("other"), Err(RuntimeError::PaneNotFound(ref x)) if x == "other"));
    assert_eq!(p.get_pane_dimensions("local:/tmp/wt"), (120, 40));
    assert_eq!(p.get_pane_dimensions("other"), (80, 24));
    assert!(p.resize("local:/tmp/wt", 100, 30).is_ok());
    assert_eq!(p.get_pane_dimensions("local:/tmp/wt"), (100, 30));
    assert!(p.resize("other", 1, 1).is_err());
    assert_eq!(p.get_pane_dimensions("local:/tmp/wt"), (100, 30));
}

#[test]
fn test_runtime_pane_list_panes() {
    let p = LocalPtyRuntime::new("/tmp/wt", 80, 24);
    for id in ["", "local:/tmp/wt", "/tmp/wt"] {
        assert_eq!(p.list_panes(id), vec!["local:/tmp/wt".to_string()]);
    }
    assert!(p.list_panes("/tmp/other").is_empty());
}

#[test]
fn test_pane_table_starts_with_main() {
    let t = LocalPtyAgent::new("/r/wt", 100, 30);
    assert_eq!(t.list_all_panes(), vec!["local:/r/wt:main".to_string()]);
    assert_eq!(t.primary_pane_id(), Some("local:/r/wt:main".to_string()));
    assert_eq!(t.get_pane_dimensions("local:/r/wt:main"), (100, 30));
    assert_eq!(t.get_pane_dimensions("nope"), (100, 30));
}

#[test]
fn test_pane_table_split_and_resize() {
    let mut t = LocalPtyAgent::new("/r/wt", 100, 30);
    assert_eq!(t.split_pane(), "local:/r/wt:pane0");
    assert_eq!(t.split_pane(), "local:/r/wt:pane1");
    assert_eq!(t.pane_counter, 2);
    assert_eq!(
        t.list_all_panes(),
        vec!["local:/r/wt:main".to_string(), "local:/r/wt:pane0".to_string(), "local:/r/wt:pane1".to_string()]
    );
    assert!(t.resize("local:/r/wt:pane0", 50, 20).is_ok());
    assert_eq!(t.get_pane_dimensions("local:/r/wt:pane0"), (50, 20));
    assert_eq!(t.get_pane_dimensions("local:/r/wt:main"), (100, 30));
    assert!(matches!(t.resize("x", 1, 1), Err(RuntimeError::PaneNotFound(ref p)) if p == "x"));
    assert!(t.check_pane("local:/r/wt:pane1").is_ok());
    assert!(t.check_pane("x").is_err());
}

#[test]
fn test_pane_table_recreate_replaces_in_place() {
    let mut t = LocalPtyAgent::new("/r/wt", 100, 30);
    t.resize("local:/r/wt:main", 10, 10).unwrap();
    assert_eq!(t.create_pane("main"), "local:/r/wt:main");
    assert_eq!(t.list_all_panes().len(), 1);
    assert_eq!(t.get_pane_dimensions("local:/r/wt:main"), (100, 30));
}

#[test]
fn test_plan_diff() {
    let t = LocalPtyAgent::new("/r/wt", 100, 30);
    let (pane, msg) = t.plan_diff(None).unwrap();
    assert_eq!(pane, "local:/r/wt:main");
    assert_eq!(msg, "Diff displayed in pane local:/r/wt:main");
    assert!(matches!(t.plan_diff(Some("zzz")), Err(RuntimeError::PaneNotFound(ref p)) if p == "zzz"));
    assert_eq!(DIFF_COMMAND, "git diff main...HEAD --color=always\n");
    let empty = LocalPtyAgent { worktree_path: "/r".to_string(), panes: vec![], pane_counter: 0, cols: 80, rows: 24 };
    assert!(matches!(empty.plan_diff(None), Err(RuntimeError::Backend(ref m)) if m == "No pane available"));
}

#[test]
fn test_batch_chunks_joins_in_order() {
    assert_eq!(batch_chunks(&vec![b"ab".to_vec(), vec![], b"c".to_vec()]), b"abc".to_vec());
    assert!(batch_chunks(&vec![]).is_empty());
}

#[test]
fn test_local_pty_agent_creates_primary_pane() {
    let dir = tempfile::tempdir().unwrap();
    let agent = LocalPtyAgent::new(dir.path().to_str().unwrap(), 80, 24);

    // Should have primary pane
    let primary = agent.primary_pane_id();
    assert!(primary.is_some());
    assert!(primary.unwrap().contains("main"));
}

#[test]
fn test_local_pty_agent_split_pane() {
    let dir = tempfile::tempdir().unwrap();
    let mut agent = LocalPtyAgent::new(dir.path().to_str().unwrap(), 80, 24);

    let _primary = agent.primary_pane_id().unwrap();
    let new_pane = agent.split_pane();

    // Should have 2 panes
    let panes = agent.list_all_panes();
    assert_eq!(panes.len(), 2);
    assert!(panes.contains(&new_pane));
}
