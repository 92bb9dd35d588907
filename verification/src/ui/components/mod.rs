//! The states of the panels and dialogs.

pub mod commit_dialog;
pub mod file_tree;
pub mod git_status;

pub use commit_dialog::CommitDialog;
pub use file_tree::FileTreeComponent;
pub use git_status::GitStatusComponent;
