use rgb_workspace::terminal::keys::{KeyCode, KeyEvent, KeyModifiers};
use rgb_workspace::terminal::session::{PollEvent, UpdateProgress, UpdateStatus, UpdateStep};
use rgb_workspace::workspace::{TerminalId, WorkspaceError, WorkspaceManager};

fn workspace_with(n: usize) -> (WorkspaceManager, Vec<TerminalId>) {
    let mut workspace = WorkspaceManager::new("/project".to_string());
    let mut ids = Vec::new();
    for _ in 0..n {
        ids.push(workspace.create_terminal(None).unwrap());
    }
    (workspace, ids)
}

fn ctrl_c() -> KeyEvent {
    KeyEvent::new(KeyCode::Char('c'), KeyModifiers::control())
}

#[test]
fn a_new_workspace_is_empty() {
    let workspace = WorkspaceManager::new("/project".to_string());
    assert!(workspace.terminals().is_empty());
    assert!(workspace.terminal_ids().is_empty());
    assert_eq!(workspace.active_terminal_id(), None);
    assert!(workspace.get_active_terminal_emulator().is_none());
}

#[test]
fn the_first_session_becomes_active() {
    let mut workspace = WorkspaceManager::new("/project".to_string());
    let first = workspace.create_terminal(Some("/bin/echo hello".to_string())).unwrap();
    assert_eq!(workspace.active_terminal_id(), Some(first));
    let second = workspace.create_terminal(None).unwrap();
    assert_ne!(first, second);
    assert_eq!(workspace.active_terminal_id(), Some(first));
    assert_eq!(workspace.terminal_ids(), vec![first, second]);
    let infos = workspace.terminals();
    assert_eq!(infos.len(), 2);
    assert_eq!(infos[0].id, first);
    assert_eq!(infos[0].title, "Terminal 1");
    assert_eq!(infos[1].title, "Terminal 2");
    assert_eq!(infos[0].working_dir, "/project");
    assert_eq!(infos[0].active_files_count, 0);
    assert!(!infos[0].has_worktree);
    let session = workspace.get_terminal_session(first).unwrap();
    assert_eq!(session.command, "/bin/echo hello");
    assert_eq!(workspace.get_terminal_session(second).unwrap().command, "");
    let emulator = workspace.get_terminal_emulator(first).unwrap();
    assert_eq!(emulator.size(), (80, 24));
    assert!(emulator.is_alive());
}

#[test]
fn names_drawn_for_sessions_differ() {
    let (workspace, ids) = workspace_with(10);
    for i in 0..ids.len() {
        for j in 0..i {
            assert_ne!(ids[i], ids[j]);
        }
    }
    assert_eq!(workspace.terminal_ids(), ids);
}

#[test]
fn creation_at_the_cap_is_refused_and_changes_nothing() {
    let (mut workspace, ids) = workspace_with(10);
    workspace.set_active_terminal(ids[3]);
    let result = workspace.create_terminal(Some("sh".to_string()));
    assert_eq!(result, Err(WorkspaceError::TooManySessions));
    assert_eq!(workspace.terminal_ids(), ids);
    assert_eq!(workspace.active_terminal_id(), Some(ids[3]));
    assert_eq!(workspace.terminals().len(), 10);
    let result = workspace.create_terminal_with_id(7, String::new());
    assert_eq!(result, Err(WorkspaceError::TooManySessions));
    assert_eq!(workspace.terminal_ids(), ids);
}

#[test]
fn the_cap_can_be_set() {
    let mut workspace = WorkspaceManager::new("/p".to_string());
    workspace.set_max_terminals(2);
    assert!(workspace.create_terminal(None).is_ok());
    assert!(workspace.create_terminal(None).is_ok());
    assert_eq!(workspace.create_terminal(None), Err(WorkspaceError::TooManySessions));
    workspace.set_max_terminals(0);
    assert_eq!(workspace.create_terminal(None), Err(WorkspaceError::TooManySessions));
    assert_eq!(workspace.terminals().len(), 2);
    workspace.set_max_terminals(12);
    for _ in 0..10 {
        assert!(workspace.create_terminal(None).is_ok());
    }
    assert_eq!(workspace.terminals()[10].title, "Terminal 11");
    assert_eq!(workspace.terminals()[11].title, "Terminal 12");
    assert_eq!(workspace.create_terminal(None), Err(WorkspaceError::TooManySessions));
}

#[test]
fn a_name_in_use_is_refused() {
    let mut workspace = WorkspaceManager::new("/p".to_string());
    assert_eq!(workspace.create_terminal_with_id(42, "a".to_string()), Ok(42));
    assert_eq!(workspace.create_terminal_with_id(43, "b".to_string()), Ok(43));
    assert_eq!(
        workspace.create_terminal_with_id(42, "c".to_string()),
        Err(WorkspaceError::IdInUse)
    );
    assert_eq!(workspace.terminal_ids(), vec![42, 43]);
    assert_eq!(workspace.get_terminal_session(42).unwrap().command, "a");
}

#[test]
fn closing_the_active_session_activates_the_first_that_remains() {
    let (mut workspace, ids) = workspace_with(3);
    assert!(workspace.close_terminal(ids[0]));
    assert_eq!(workspace.active_terminal_id(), Some(ids[1]));
    assert_eq!(workspace.terminal_ids(), vec![ids[1], ids[2]]);
    workspace.set_active_terminal(ids[2]);
    assert!(workspace.close_terminal(ids[2]));
    assert_eq!(workspace.active_terminal_id(), Some(ids[1]));
    assert!(workspace.close_active_terminal());
    assert_eq!(workspace.active_terminal_id(), None);
    assert!(workspace.terminals().is_empty());
    assert!(!workspace.close_active_terminal());
}

#[test]
fn closing_another_session_keeps_the_active_one() {
    let (mut workspace, ids) = workspace_with(3);
    workspace.set_active_terminal(ids[1]);
    assert!(workspace.close_terminal(ids[0]));
    assert_eq!(workspace.active_terminal_id(), Some(ids[1]));
    assert!(workspace.close_terminal(ids[2]));
    assert_eq!(workspace.active_terminal_id(), Some(ids[1]));
    assert_eq!(workspace.terminal_ids(), vec![ids[1]]);
}

#[test]
fn closing_an_unknown_session_changes_nothing() {
    let (mut workspace, ids) = workspace_with(2);
    let unknown = ids[0] ^ ids[1] ^ 1;
    assert!(!workspace.close_terminal(unknown));
    assert_eq!(workspace.terminal_ids(), ids);
    assert_eq!(workspace.active_terminal_id(), Some(ids[0]));
}

#[test]
fn a_session_created_after_the_last_was_closed_is_active() {
    let (mut workspace, ids) = workspace_with(1);
    workspace.close_terminal(ids[0]);
    let next = workspace.create_terminal(None).unwrap();
    assert_eq!(workspace.active_terminal_id(), Some(next));
    assert_eq!(workspace.terminals()[0].title, "Terminal 1");
}

#[test]
fn next_and_previous_cycle_through_the_sessions() {
    let (mut workspace, ids) = workspace_with(3);
    workspace.next_terminal();
    assert_eq!(workspace.active_terminal_id(), Some(ids[1]));
    workspace.next_terminal();
    assert_eq!(workspace.active_terminal_id(), Some(ids[2]));
    workspace.next_terminal();
    assert_eq!(workspace.active_terminal_id(), Some(ids[0]));
    workspace.previous_terminal();
    assert_eq!(workspace.active_terminal_id(), Some(ids[2]));
    workspace.previous_terminal();
    assert_eq!(workspace.active_terminal_id(), Some(ids[1]));
    let mut empty = WorkspaceManager::new("/p".to_string());
    empty.next_terminal();
    empty.previous_terminal();
    assert_eq!(empty.active_terminal_id(), None);
    let (mut single, only) = workspace_with(1);
    single.next_terminal();
    assert_eq!(single.active_terminal_id(), Some(only[0]));
    single.previous_terminal();
    assert_eq!(single.active_terminal_id(), Some(only[0]));
}

#[test]
fn switching_by_index_and_by_name() {
    let (mut workspace, ids) = workspace_with(3);
    workspace.switch_to_terminal(2);
    assert_eq!(workspace.active_terminal_id(), Some(ids[2]));
    workspace.switch_to_terminal(3);
    assert_eq!(workspace.active_terminal_id(), Some(ids[2]));
    workspace.switch_to_terminal(0);
    assert_eq!(workspace.active_terminal_id(), Some(ids[0]));
    workspace.set_active_terminal(ids[1]);
    assert_eq!(workspace.active_terminal_id(), Some(ids[1]));
    workspace.set_active_terminal(ids[0] ^ ids[1] ^ ids[2] ^ 1);
    assert_eq!(workspace.active_terminal_id(), Some(ids[1]));
    assert_eq!(workspace.find(ids[2]), Some(2));
    assert_eq!(workspace.find(ids[0] ^ ids[1] ^ ids[2] ^ 1), None);
}

#[test]
fn keys_go_to_the_active_session_only() {
    let (mut workspace, ids) = workspace_with(2);
    workspace.set_active_terminal(ids[1]);
    workspace.send_key_to_active_terminal(ctrl_c());
    assert_eq!(workspace.take_output(ids[0]), Ok(Vec::new()));
    assert_eq!(workspace.take_output(ids[1]), Ok(vec![0x03]));
    assert_eq!(workspace.take_output(ids[1]), Ok(Vec::new()));
    let mut empty = WorkspaceManager::new("/p".to_string());
    empty.send_key_to_active_terminal(ctrl_c());
    assert!(empty.terminals().is_empty());
}

#[test]
fn output_of_an_unknown_session_is_not_found() {
    let (mut workspace, ids) = workspace_with(1);
    assert_eq!(workspace.take_output(ids[0] ^ 1), Err(WorkspaceError::NotFound));
    assert_eq!(workspace.take_resize_request(ids[0] ^ 1), None);
}

#[test]
fn a_pass_that_ends_damaged_or_died_owes_one_redraw() {
    let (mut workspace, ids) = workspace_with(3);
    assert!(!workspace.take_redraw());
    for id in &ids {
        let step = workspace.update(*id, 1);
        assert_eq!(step, UpdateStep::Poll(UpdateProgress { polls_left: 1, damaged: false }));
    }
    let progress = UpdateProgress { polls_left: 1, damaged: false };
    assert_eq!(
        workspace.on_poll(ids[0], progress, PollEvent::WouldBlock),
        UpdateStep::Done(UpdateStatus::NoChange)
    );
    assert!(!workspace.take_redraw());
    assert_eq!(
        workspace.on_poll(ids[1], progress, PollEvent::Bytes(b"x".to_vec())),
        UpdateStep::Done(UpdateStatus::Damaged)
    );
    assert_eq!(
        workspace.on_poll(ids[2], progress, PollEvent::Eof),
        UpdateStep::Done(UpdateStatus::Died)
    );
    assert!(workspace.take_redraw());
    assert!(!workspace.take_redraw());
    assert!(!workspace.get_terminal_emulator(ids[2]).unwrap().is_alive());
    assert_eq!(workspace.update(ids[2], 5), UpdateStep::Done(UpdateStatus::NoChange));
    assert_eq!(
        workspace.on_poll(ids[2], progress, PollEvent::Bytes(b"y".to_vec())),
        UpdateStep::Done(UpdateStatus::NoChange)
    );
    assert!(!workspace.take_redraw());
    let two = UpdateProgress { polls_left: 2, damaged: false };
    assert_eq!(
        workspace.on_poll(ids[0], two, PollEvent::Bytes(b"z".to_vec())),
        UpdateStep::Poll(UpdateProgress { polls_left: 1, damaged: true })
    );
    assert!(!workspace.take_redraw());
    assert_eq!(
        workspace.get_terminal_emulator(ids[1]).unwrap().get_visible_content()[0].trim_end(),
        "x"
    );
}

#[test]
fn updates_of_unknown_sessions_are_over_at_once() {
    let (mut workspace, ids) = workspace_with(1);
    let unknown = ids[0] ^ 1;
    assert_eq!(workspace.update(unknown, 9), UpdateStep::Done(UpdateStatus::NoChange));
    assert_eq!(
        workspace.on_poll(
            unknown,
            UpdateProgress { polls_left: 2, damaged: false },
            PollEvent::Bytes(b"q".to_vec())
        ),
        UpdateStep::Done(UpdateStatus::NoChange)
    );
    assert!(!workspace.take_redraw());
}

#[test]
fn resize_passes_through_to_the_session() {
    let (mut workspace, ids) = workspace_with(2);
    workspace.resize_terminal(ids[1], 100, 40);
    assert_eq!(workspace.get_terminal_emulator(ids[1]).unwrap().size(), (100, 40));
    assert_eq!(workspace.get_terminal_emulator(ids[0]).unwrap().size(), (80, 24));
    assert_eq!(workspace.take_resize_request(ids[1]), Some((100, 40)));
    assert_eq!(workspace.take_resize_request(ids[1]), None);
    assert_eq!(workspace.take_resize_request(ids[0]), None);
    workspace.resize_terminal(ids[0] ^ ids[1] ^ 1, 10, 10);
    assert_eq!(workspace.get_terminal_emulator(ids[0]).unwrap().size(), (80, 24));
}

#[test]
fn a_worktree_becomes_the_working_directory() {
    let (mut workspace, ids) = workspace_with(2);
    assert!(workspace.attach_worktree(ids[1], "/tmp/wt".to_string()));
    assert!(!workspace.attach_worktree(ids[0] ^ ids[1] ^ 1, "/tmp/x".to_string()));
    let infos = workspace.terminals();
    assert!(!infos[0].has_worktree);
    assert!(infos[1].has_worktree);
    assert_eq!(infos[1].working_dir, "/tmp/wt");
    let session = workspace.get_terminal_session(ids[1]).unwrap();
    assert_eq!(session.worktree_path, Some("/tmp/wt".to_string()));
}

#[test]
fn the_name_of_a_closed_session_is_not_given_again() {
    let mut workspace = WorkspaceManager::new("/project".to_string());
    assert!(!workspace.was_closed(42));
    assert_eq!(workspace.create_terminal_with_id(42, String::new()), Ok(42));
    assert_eq!(workspace.create_terminal_with_id(43, String::new()), Ok(43));
    assert!(workspace.close_terminal(42));
    assert!(workspace.was_closed(42));
    assert!(!workspace.was_closed(43));
    assert_eq!(
        workspace.create_terminal_with_id(42, String::new()),
        Err(WorkspaceError::IdInUse)
    );
    assert_eq!(workspace.terminal_ids(), vec![43]);
    assert!(workspace.close_terminal(43));
    assert_eq!(
        workspace.create_terminal_with_id(43, String::new()),
        Err(WorkspaceError::IdInUse)
    );
    assert_eq!(
        workspace.create_terminal_with_id(42, String::new()),
        Err(WorkspaceError::IdInUse)
    );
    assert_eq!(workspace.create_terminal_with_id(44, String::new()), Ok(44));
    assert_eq!(workspace.active_terminal_id(), Some(44));
}

#[test]
fn a_workspace_that_never_held_a_session_gets_its_session() {
    for _ in 0..50 {
        let mut workspace = WorkspaceManager::new("/project".to_string());
        let id = workspace.create_terminal(None).unwrap();
        assert_eq!(workspace.terminal_ids(), vec![id]);
        assert_eq!(workspace.active_terminal_id(), Some(id));
    }
}
