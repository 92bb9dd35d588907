//! The state of the panel that shows the status of the repository.

use vstd::prelude::*;
use crate::git::{GitStatus, GitStatusView};

verus! {

/// The status panel: the status it shows and the sections that are visible.
pub struct GitStatusComponent {
    status: GitStatus,
    show_staged: bool,
    show_modified: bool,
    show_untracked: bool,
}

/// The model of the status panel.
pub struct GitStatusPanel {
    pub status: GitStatusView,
    pub show_staged: bool,
    pub show_modified: bool,
    pub show_untracked: bool,
}

impl View for GitStatusComponent {
    type V = GitStatusPanel;

    closed spec fn view(&self) -> GitStatusPanel {
        GitStatusPanel {
            status: self.status@,
            show_staged: self.show_staged,
            show_modified: self.show_modified,
            show_untracked: self.show_untracked,
        }
    }
}

impl GitStatusComponent {
    /// A panel with an empty status and every section visible.
    pub fn new() -> (panel: GitStatusComponent)
        ensures
            panel@ == (GitStatusPanel {
                status: GitStatusView::empty(),
                show_staged: true,
                show_modified: true,
                show_untracked: true,
            }),
    {
        GitStatusComponent {
            status: GitStatus::new(),
            show_staged: true,
            show_modified: true,
            show_untracked: true,
        }
    }

    /// Replaces the status shown.
    pub fn update_status(&mut self, status: GitStatus)
        ensures
            final(self)@ == (GitStatusPanel { status: status@, ..old(self)@ }),
    {
        self.status = status;
    }

    /// Shows the staged files if they are hidden, and hides them if not.
    pub fn toggle_staged(&mut self)
        ensures
            final(self)@ == (GitStatusPanel { show_staged: !old(self)@.show_staged, ..old(self)@ }),
    {
        self.show_staged = !self.show_staged;
    }

    /// Shows the modified files if they are hidden, and hides them if not.
    pub fn toggle_modified(&mut self)
        ensures
            final(self)@ == (GitStatusPanel {
                show_modified: !old(self)@.show_modified,
                ..old(self)@
            }),
    {
        self.show_modified = !self.show_modified;
    }

    /// Shows the untracked files if they are hidden, and hides them if not.
    pub fn toggle_untracked(&mut self)
        ensures
            final(self)@ == (GitStatusPanel {
                show_untracked: !old(self)@.show_untracked,
                ..old(self)@
            }),
    {
        self.show_untracked = !self.show_untracked;
    }

    /// The status shown.
    pub fn status(&self) -> (status: &GitStatus)
        ensures
            status@ == self@.status,
    {
        &self.status
    }

    /// Which sections are visible, as (staged, modified, untracked).
    pub fn visible_sections(&self) -> (shown: (bool, bool, bool))
        ensures
            shown == (self@.show_staged, self@.show_modified, self@.show_untracked),
    {
        (self.show_staged, self.show_modified, self.show_untracked)
    }
}

} // verus!
