use rgb_workspace::config::{default_terminals, AppConfig, BorderStyle, CursorStyle, Size};
use rgb_workspace::git::{
    branch_name, sync_action, FileFlags, GitStatus, SyncAction, SyncFacts,
};

fn flags() -> FileFlags {
    FileFlags {
        worktree_modified: false,
        index_new: false,
        index_modified: false,
        worktree_new: false,
        worktree_deleted: false,
        conflicted: false,
    }
}

fn facts() -> SyncFacts {
    SyncFacts {
        seconds_since_sync: 1000,
        dirty: false,
        main_is_merge_base: false,
        can_fast_forward: false,
        needs_merge: false,
    }
}

#[test]
fn the_default_configuration() {
    let config = AppConfig::defaults(Some("/bin/zsh".to_string()));
    assert_eq!(config.general.project_dir, None);
    assert_eq!(config.general.max_terminals, 10);
    assert!(config.general.auto_save_layout);
    assert_eq!(config.general.default_shell, "/bin/zsh");
    assert_eq!(config.appearance.theme, "dark");
    assert_eq!(config.appearance.font_size, 12);
    assert_eq!(config.appearance.cursor_style, CursorStyle::Block);
    assert_eq!(config.appearance.scrollback_lines, 10000);
    assert_eq!(config.keybindings.new_terminal, "ctrl+t");
    assert_eq!(config.keybindings.close_terminal, "ctrl+w");
    assert_eq!(config.keybindings.switch_mode, "esc");
    assert_eq!(config.layout.default, "grid");
    assert_eq!(config.layout.min_pane_size, Size { width: 40, height: 10 });
    assert_eq!(config.layout.border_style, BorderStyle::Rounded);
    assert!(config.git.auto_worktree);
    assert_eq!(config.git.sync_interval, 300);
    assert!(config.git.commit_template.starts_with("feat: {message}\n\n"));
    assert_eq!(config.terminals.len(), 2);
    assert_eq!(config.terminals[0].0, "vim");
    assert_eq!(config.terminals[0].1.command, "vim");
    assert_eq!(config.terminals[1].0, "shell");
    assert_eq!(config.terminals[1].1.command, "/bin/zsh");
    assert_eq!(config.terminals[1].1.icon, ">");
    assert!(config.terminals[1].1.environment.is_empty());
    let config = AppConfig::defaults(None);
    assert_eq!(config.general.default_shell, "/bin/bash");
    assert_eq!(config.terminals[1].1.command, "/bin/bash");
    assert_eq!(default_terminals("sh".to_string())[1].1.command, "sh");
}

#[test]
fn files_are_recorded_by_their_flags() {
    let mut status = GitStatus::new();
    assert!(status.modified_files.is_empty() && status.conflicted_files.is_empty());
    status.record(&"a".to_string(), FileFlags { worktree_modified: true, ..flags() });
    status.record(&"b".to_string(), FileFlags { index_new: true, ..flags() });
    status.record(&"c".to_string(), FileFlags { index_modified: true, worktree_modified: true, ..flags() });
    status.record(&"d".to_string(), FileFlags { worktree_new: true, ..flags() });
    status.record(&"e".to_string(), FileFlags { worktree_deleted: true, conflicted: true, ..flags() });
    status.record(&"f".to_string(), flags());
    status.record(&"g".to_string(), FileFlags { index_new: true, index_modified: true, ..flags() });
    assert_eq!(status.modified_files, vec!["a", "c"]);
    assert_eq!(status.staged_files, vec!["b", "c", "g"]);
    assert_eq!(status.untracked_files, vec!["d"]);
    assert_eq!(status.deleted_files, vec!["e"]);
    assert_eq!(status.conflicted_files, vec!["e"]);
}

#[test]
fn a_synchronisation_is_decided_by_the_facts() {
    assert_eq!(sync_action(SyncFacts { seconds_since_sync: 299, ..facts() }), SyncAction::Skip);
    assert_eq!(
        sync_action(SyncFacts { seconds_since_sync: 0, can_fast_forward: true, ..facts() }),
        SyncAction::Skip
    );
    assert_eq!(sync_action(SyncFacts { dirty: true, can_fast_forward: true, ..facts() }), SyncAction::Skip);
    assert_eq!(
        sync_action(SyncFacts { seconds_since_sync: 300, main_is_merge_base: true, can_fast_forward: true, ..facts() }),
        SyncAction::UpToDate
    );
    assert_eq!(
        sync_action(SyncFacts { seconds_since_sync: 300, can_fast_forward: true, needs_merge: true, ..facts() }),
        SyncAction::FastForward
    );
    assert_eq!(sync_action(SyncFacts { needs_merge: true, ..facts() }), SyncAction::MarkConflict);
    assert_eq!(sync_action(facts()), SyncAction::UpToDate);
}

#[test]
fn branches_are_named_after_the_session() {
    assert_eq!(branch_name(0), "terminal-00000000");
    assert_eq!(branch_name(u128::MAX), "terminal-ffffffff");
    assert_eq!(
        branch_name(0xa1a2a3a4_b1b2_c1c2_d1d2_d3d4d5d6d7d8),
        "terminal-a1a2a3a4"
    );
    assert_eq!(branch_name(0x0123_4567_89ab_cdef_0123_4567_89ab_cdef), "terminal-01234567");
    assert_eq!(branch_name(0x0000_00ff_ffff_ffff_ffff_ffff_ffff_ffff), "terminal-000000ff");
}
