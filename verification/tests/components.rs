use rgb_workspace::git::{FileFlags, GitStatus};
use rgb_workspace::text::{copy_texts, find_text};
use rgb_workspace::ui::components::{CommitDialog, FileTreeComponent, GitStatusComponent};

fn paths(names: &[&str]) -> Vec<String> {
    names.iter().map(|n| n.to_string()).collect()
}

#[test]
fn the_commit_dialog_opens_and_closes() {
    let mut dialog = CommitDialog::new();
    assert!(!dialog.is_open());
    assert_eq!(dialog.get_message(), "");
    assert!(dialog.files().is_empty());
    dialog.set_message("draft".to_string());
    assert_eq!(dialog.get_message(), "draft");
    dialog.open(paths(&["a.rs", "b.rs"]));
    assert!(dialog.is_open());
    assert_eq!(dialog.get_message(), "");
    assert_eq!(dialog.files(), &paths(&["a.rs", "b.rs"]));
    dialog.set_message("fix: wrap".to_string());
    assert_eq!(dialog.get_message(), "fix: wrap");
    assert!(dialog.is_open());
    dialog.close();
    assert!(!dialog.is_open());
    assert_eq!(dialog.get_message(), "");
    assert!(dialog.files().is_empty());
}

#[test]
fn directories_of_the_file_tree_are_toggled() {
    let mut tree = FileTreeComponent::new("/project".to_string());
    assert!(!tree.is_expanded(&"/project/src".to_string()));
    tree.toggle_expand("/project/src".to_string());
    tree.toggle_expand("/project/docs".to_string());
    assert!(tree.is_expanded(&"/project/src".to_string()));
    assert!(tree.is_expanded(&"/project/docs".to_string()));
    tree.toggle_expand("/project/src".to_string());
    assert!(!tree.is_expanded(&"/project/src".to_string()));
    assert!(tree.is_expanded(&"/project/docs".to_string()));
    tree.select("/project/docs/a.md".to_string());
    assert!(tree.is_expanded(&"/project/docs".to_string()));
    tree.toggle_expand("/project/src".to_string());
    assert!(tree.is_expanded(&"/project/src".to_string()));
}

#[test]
fn the_sections_of_the_status_panel_are_toggled() {
    let mut panel = GitStatusComponent::new();
    assert_eq!(panel.visible_sections(), (true, true, true));
    assert!(panel.status().modified_files.is_empty());
    panel.toggle_staged();
    assert_eq!(panel.visible_sections(), (false, true, true));
    panel.toggle_modified();
    assert_eq!(panel.visible_sections(), (false, false, true));
    panel.toggle_untracked();
    assert_eq!(panel.visible_sections(), (false, false, false));
    panel.toggle_staged();
    assert_eq!(panel.visible_sections(), (true, false, false));
    let mut status = GitStatus::new();
    status.record(
        &"x".to_string(),
        FileFlags {
            worktree_modified: true,
            index_new: false,
            index_modified: false,
            worktree_new: false,
            worktree_deleted: false,
            conflicted: false,
        },
    );
    panel.update_status(status);
    assert_eq!(panel.status().modified_files, vec!["x"]);
    assert_eq!(panel.visible_sections(), (true, false, false));
}

#[test]
fn texts_are_found_and_copied() {
    let list = paths(&["a", "b", "a", "c"]);
    assert_eq!(find_text(&list, &"a".to_string()), Some(0));
    assert_eq!(find_text(&list, &"c".to_string()), Some(3));
    assert_eq!(find_text(&list, &"d".to_string()), None);
    assert_eq!(find_text(&Vec::new(), &"a".to_string()), None);
    assert_eq!(copy_texts(&list), list);
}
