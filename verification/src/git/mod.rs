//! What the library knows of the repository: the status of its files, the
//! hunks of a diff, and the names of the branches that sessions work on.

use vstd::prelude::*;
use vstd::string::*;
use crate::text::texts;
use crate::workspace::TerminalId;

verus! {

/// How the branch of a worktree stands to the main branch.
#[derive(Debug)]
pub enum MergeStatus {
    Unmerged,
    Merged,
    Conflict { main_branch: String, worktree_branch: String },
}

/// The files of a repository, by what has happened to them.
#[derive(Debug)]
pub struct GitStatus {
    pub modified_files: Vec<String>,
    pub staged_files: Vec<String>,
    pub untracked_files: Vec<String>,
    pub deleted_files: Vec<String>,
    pub conflicted_files: Vec<String>,
}

/// One hunk of a diff.
#[derive(Debug)]
pub struct DiffHunk {
    pub file: String,
    pub old_start: usize,
    pub old_lines: usize,
    pub new_start: usize,
    pub new_lines: usize,
    pub content: String,
}

/// The worktree of one session.
#[derive(Debug)]
pub struct WorktreeInfo {
    pub path: String,
    pub branch: String,
    pub terminal_id: TerminalId,
    /// When the worktree was last synchronised, in seconds.
    pub last_sync: u64,
    pub merge_status: MergeStatus,
}

/// What the repository says of one file.
#[derive(Clone, Copy, Debug, PartialEq, Eq, Structural)]
pub struct FileFlags {
    pub worktree_modified: bool,
    pub index_new: bool,
    pub index_modified: bool,
    pub worktree_new: bool,
    pub worktree_deleted: bool,
    pub conflicted: bool,
}

/// The model of a status: five lists of paths.
pub struct GitStatusView {
    pub modified: Seq<Seq<char>>,
    pub staged: Seq<Seq<char>>,
    pub untracked: Seq<Seq<char>>,
    pub deleted: Seq<Seq<char>>,
    pub conflicted: Seq<Seq<char>>,
}

/// `list` with `path` at its end if `wanted`, else `list`.
pub open spec fn push_if(list: Seq<Seq<char>>, wanted: bool, path: Seq<char>) -> Seq<Seq<char>> {
    if wanted {
        list.push(path)
    } else {
        list
    }
}

impl GitStatusView {
    /// The status without files.
    pub open spec fn empty() -> GitStatusView {
        GitStatusView {
            modified: Seq::empty(),
            staged: Seq::empty(),
            untracked: Seq::empty(),
            deleted: Seq::empty(),
            conflicted: Seq::empty(),
        }
    }

    /// The status with `path` added to each list that its flags name: a
    /// file that is new or modified in the index counts as staged.
    pub open spec fn recorded(self, path: Seq<char>, flags: FileFlags) -> GitStatusView {
        GitStatusView {
            modified: push_if(self.modified, flags.worktree_modified, path),
            staged: push_if(self.staged, flags.index_new || flags.index_modified, path),
            untracked: push_if(self.untracked, flags.worktree_new, path),
            deleted: push_if(self.deleted, flags.worktree_deleted, path),
            conflicted: push_if(self.conflicted, flags.conflicted, path),
        }
    }
}

impl View for GitStatus {
    type V = GitStatusView;

    open spec fn view(&self) -> GitStatusView {
        GitStatusView {
            modified: texts(self.modified_files@),
            staged: texts(self.staged_files@),
            untracked: texts(self.untracked_files@),
            deleted: texts(self.deleted_files@),
            conflicted: texts(self.conflicted_files@),
        }
    }
}

impl GitStatus {
    /// The status without files.
    pub fn new() -> (status: GitStatus)
        ensures
            status@ == GitStatusView::empty(),
    {
        let status = GitStatus {
            modified_files: Vec::new(),
            staged_files: Vec::new(),
            untracked_files: Vec::new(),
            deleted_files: Vec::new(),
            conflicted_files: Vec::new(),
        };
        assert(status@.modified =~= Seq::<Seq<char>>::empty());
        assert(status@.staged =~= Seq::<Seq<char>>::empty());
        assert(status@.untracked =~= Seq::<Seq<char>>::empty());
        assert(status@.deleted =~= Seq::<Seq<char>>::empty());
        assert(status@.conflicted =~= Seq::<Seq<char>>::empty());
        status
    }

    /// Adds `path` to each list that `flags` name.
    pub fn record(&mut self, path: &String, flags: FileFlags)
        ensures
            final(self)@ == old(self)@.recorded(path@, flags),
    {
        if flags.worktree_modified {
            self.modified_files.push(path.clone());
        }
        if flags.index_new || flags.index_modified {
            self.staged_files.push(path.clone());
        }
        if flags.worktree_new {
            self.untracked_files.push(path.clone());
        }
        if flags.worktree_deleted {
            self.deleted_files.push(path.clone());
        }
        if flags.conflicted {
            self.conflicted_files.push(path.clone());
        }
        proof {
            let goal = old(self)@.recorded(path@, flags);
            assert(self@.modified =~= goal.modified);
            assert(self@.staged =~= goal.staged);
            assert(self@.untracked =~= goal.untracked);
            assert(self@.deleted =~= goal.deleted);
            assert(self@.conflicted =~= goal.conflicted);
        }
    }
}

/// What a synchronisation of a worktree with the main branch is to do.
#[derive(Clone, Copy, Debug, PartialEq, Eq, Structural)]
pub enum SyncAction {
    /// Nothing: the worktree was synchronised lately, or has changes that
    /// are not committed.
    Skip,
    /// Nothing but to note the time: the worktree holds the main branch.
    UpToDate,
    /// Move the worktree forward to the main branch.
    FastForward,
    /// Leave the worktree and mark it as in conflict.
    MarkConflict,
}

/// What the repository says of a worktree before a synchronisation.
#[derive(Clone, Copy, Debug, PartialEq, Eq, Structural)]
pub struct SyncFacts {
    /// Seconds since the last synchronisation.
    pub seconds_since_sync: u64,
    /// Whether the worktree has changes that are not committed.
    pub dirty: bool,
    /// Whether the main branch is the merge base of the two branches.
    pub main_is_merge_base: bool,
    /// Whether the merge can move the worktree forward.
    pub can_fast_forward: bool,
    /// Whether the merge needs a merge commit.
    pub needs_merge: bool,
}

/// The seconds that pass between two synchronisations of a worktree.
pub open spec fn sync_interval() -> u64 {
    300
}

/// The action that the facts call for.
pub open spec fn sync_action_of(facts: SyncFacts) -> SyncAction {
    if facts.seconds_since_sync < sync_interval() || facts.dirty {
        SyncAction::Skip
    } else if facts.main_is_merge_base {
        SyncAction::UpToDate
    } else if facts.can_fast_forward {
        SyncAction::FastForward
    } else if facts.needs_merge {
        SyncAction::MarkConflict
    } else {
        SyncAction::UpToDate
    }
}

/// Decides what a synchronisation of a worktree is to do.
pub fn sync_action(facts: SyncFacts) -> (action: SyncAction)
    ensures
        action == sync_action_of(facts),
{
    if facts.seconds_since_sync < 300 || facts.dirty {
        SyncAction::Skip
    } else if facts.main_is_merge_base {
        SyncAction::UpToDate
    } else if facts.can_fast_forward {
        SyncAction::FastForward
    } else if facts.needs_merge {
        SyncAction::MarkConflict
    } else {
        SyncAction::UpToDate
    }
}

/// The hexadecimal digit of `v`, in lower case.
pub open spec fn hex_digit(v: int) -> char {
    if v < 10 {
        ((0x30 + v) as u8) as char
    } else {
        ((0x61 + v - 10) as u8) as char
    }
}

/// The hexadecimal digits of `v`, the most significant first, in `n` places.
pub open spec fn hex_text(v: int, n: nat) -> Seq<char>
    decreases n,
{
    if n == 0 {
        Seq::empty()
    } else {
        hex_text(v / 16, (n - 1) as nat).push(hex_digit(v % 16))
    }
}

/// The first eight of the thirty-two hexadecimal digits of `id`.
pub open spec fn short_id(id: TerminalId) -> Seq<char> {
    hex_text((id as int) / 0x1_0000_0000_0000_0000_0000_0000, 8)
}

/// The name of the branch on which the session named `id` works.
pub open spec fn branch_text(id: TerminalId) -> Seq<char> {
    "terminal-"@ + short_id(id)
}

/// Appends the hexadecimal digits of `v` in `n` places.
fn push_hex(out: &mut String, v: u32, n: u8)
    ensures
        final(out)@ == old(out)@ + hex_text(v as int, n as nat),
    decreases n,
{
    if n > 0 {
        push_hex(out, v / 16, n - 1);
        let d = (v % 16) as u8;
        let c = if d < 10 { (0x30 + d) as char } else { (0x61 + d - 10) as char };
        out.push(c);
        assert(out@ =~= old(out)@ + hex_text(v as int, n as nat));
    } else {
        assert(out@ =~= old(out)@ + hex_text(v as int, n as nat));
    }
}

/// The name of the branch on which the session named `id` works:
/// `terminal-` and the first eight hexadecimal digits of the name.
pub fn branch_name(id: TerminalId) -> (name: String)
    ensures
        name@ == branch_text(id),
{
    let top: u32 = (id / 0x1_0000_0000_0000_0000_0000_0000) as u32;
    let mut name = "terminal-".to_owned();
    push_hex(&mut name, top, 8);
    name
}

} // verus!
