//! The files that each session tracks, and the log of the changes on disk.

use vstd::prelude::*;
use crate::monitor::conflicts::{
    ConflictDetector, ConflictResolution, FileConflict, Overlap, added, conflicts_of,
    conflicts_view, purged, removed,
};
use crate::text::{copy_texts, find_text, first_index, texts};
use crate::workspace::{TerminalId, lemma_position_is, position};

verus! {

/// What happened to a file.
#[derive(Debug)]
pub enum ChangeType {
    Created,
    Modified,
    Deleted,
    Renamed { from: String, to: String },
}

/// The kind of an event of the file system.
#[derive(Clone, Copy, Debug, PartialEq, Eq, Structural)]
pub enum FileEventKind {
    Create,
    Modify,
    Delete,
}

/// An event of the file system. The time is counted in milliseconds.
#[derive(Debug)]
pub struct FileEvent {
    pub path: String,
    pub kind: FileEventKind,
    pub timestamp: u64,
}

/// A change on disk, as the log keeps it.
#[derive(Debug)]
pub struct FileChange {
    pub terminal_id: Option<TerminalId>,
    pub file_path: String,
    pub change_type: ChangeType,
    pub timestamp: u64,
}

/// The model of what happened to a file.
pub enum ChangeKind {
    Created,
    Modified,
    Deleted,
    Renamed { from: Seq<char>, to: Seq<char> },
}

/// The model of a change.
pub struct ChangeView {
    pub terminal_id: Option<TerminalId>,
    pub file_path: Seq<char>,
    pub kind: ChangeKind,
    pub timestamp: u64,
}

impl View for ChangeType {
    type V = ChangeKind;

    open spec fn view(&self) -> ChangeKind {
        match *self {
            ChangeType::Created => ChangeKind::Created,
            ChangeType::Modified => ChangeKind::Modified,
            ChangeType::Deleted => ChangeKind::Deleted,
            ChangeType::Renamed { from, to } => ChangeKind::Renamed { from: from@, to: to@ },
        }
    }
}

impl View for FileChange {
    type V = ChangeView;

    open spec fn view(&self) -> ChangeView {
        ChangeView {
            terminal_id: self.terminal_id,
            file_path: self.file_path@,
            kind: self.change_type@,
            timestamp: self.timestamp,
        }
    }
}

/// The models of a list of changes, in order.
pub open spec fn changes_view(list: Seq<FileChange>) -> Seq<ChangeView> {
    Seq::new(list.len(), |i: int| list[i]@)
}

/// How many changes the log keeps.
pub open spec fn log_capacity() -> int {
    1000
}

/// The change that the log keeps of an event: no session is named.
pub open spec fn change_of(path: Seq<char>, kind: FileEventKind, timestamp: u64) -> ChangeView {
    ChangeView {
        terminal_id: None,
        file_path: path,
        kind: match kind {
            FileEventKind::Create => ChangeKind::Created,
            FileEventKind::Modify => ChangeKind::Modified,
            FileEventKind::Delete => ChangeKind::Deleted,
        },
        timestamp,
    }
}

/// The log with one more change, cut at its oldest end to its capacity.
pub open spec fn logged(log: Seq<ChangeView>, change: ChangeView) -> Seq<ChangeView> {
    let longer = log.push(change);
    if longer.len() > log_capacity() {
        longer.subrange(longer.len() - log_capacity(), longer.len() as int)
    } else {
        longer
    }
}

/// The changes of the log that are later than `since`, in order.
pub open spec fn later_than(log: Seq<ChangeView>, since: u64) -> Seq<ChangeView>
    decreases log.len(),
{
    if log.len() == 0 {
        Seq::empty()
    } else if log.last().timestamp > since {
        later_than(log.drop_last(), since).push(log.last())
    } else {
        later_than(log.drop_last(), since)
    }
}

/// The model of the files of one session.
pub type Watched = (TerminalId, Seq<Seq<char>>);

/// The sessions of the entries, in order.
pub open spec fn sessions_of(watched: Seq<Watched>) -> Seq<TerminalId> {
    Seq::new(watched.len(), |i: int| watched[i].0)
}

/// `files` with `file` at its end, unless it holds `file`.
pub open spec fn inserted(files: Seq<Seq<char>>, file: Seq<char>) -> Seq<Seq<char>> {
    if first_index(files, file) < files.len() {
        files
    } else {
        files.push(file)
    }
}

/// `files` without the first `file` that it holds.
pub open spec fn taken_out(files: Seq<Seq<char>>, file: Seq<char>) -> Seq<Seq<char>> {
    if first_index(files, file) < files.len() {
        files.remove(first_index(files, file))
    } else {
        files
    }
}

/// The model of the tracker.
pub struct TrackerState {
    /// The sessions that are watched, each with its files.
    pub watched: Seq<Watched>,
    /// The log of changes, oldest first.
    pub log: Seq<ChangeView>,
    /// The files with the sessions that work on them.
    pub overlaps: Seq<Overlap>,
    /// What is to happen when sessions share a file.
    pub strategy: ConflictResolution,
}

impl TrackerState {
    /// Where the session named `id` stands among the watched ones.
    pub open spec fn index_of(self, id: TerminalId) -> int {
        position(sessions_of(self.watched), id)
    }

    /// Whether the session named `id` is watched.
    pub open spec fn tracks(self, id: TerminalId) -> bool {
        self.index_of(id) < self.watched.len()
    }

    /// The tracker once the session named `id` is tracked anew: it
    /// has no files of its own.
    pub open spec fn started(self, id: TerminalId) -> TrackerState {
        if self.tracks(id) {
            TrackerState {
                watched: self.watched.update(self.index_of(id), (id, Seq::empty())),
                ..self
            }
        } else {
            TrackerState { watched: self.watched.push((id, Seq::empty())), ..self }
        }
    }

    /// The tracker once the session named `id` is watched no more.
    pub open spec fn stopped(self, id: TerminalId) -> TrackerState {
        TrackerState {
            watched: if self.tracks(id) {
                self.watched.remove(self.index_of(id))
            } else {
                self.watched
            },
            overlaps: purged(self.overlaps, id),
            ..self
        }
    }

    /// The tracker once the watched session named `id` took up `file`.
    pub open spec fn with_file(self, id: TerminalId, file: Seq<char>) -> TrackerState {
        if self.tracks(id) {
            let at = self.index_of(id);
            TrackerState {
                watched: self.watched.update(at, (id, inserted(self.watched[at].1, file))),
                overlaps: added(self.overlaps, file, id),
                ..self
            }
        } else {
            self
        }
    }

    /// The tracker once the watched session named `id` let go of `file`.
    pub open spec fn without_file(self, id: TerminalId, file: Seq<char>) -> TrackerState {
        if self.tracks(id) {
            let at = self.index_of(id);
            TrackerState {
                watched: self.watched.update(at, (id, taken_out(self.watched[at].1, file))),
                overlaps: removed(self.overlaps, file, id),
                ..self
            }
        } else {
            self
        }
    }
}

/// The tracker of files.
pub struct FileTracker {
    terminal_files: Vec<(TerminalId, Vec<String>)>,
    file_changes: Vec<FileChange>,
    conflict_detector: ConflictDetector,
}

impl View for FileTracker {
    type V = TrackerState;

    closed spec fn view(&self) -> TrackerState {
        TrackerState {
            watched: Seq::new(
                self.terminal_files@.len(),
                |i: int| (self.terminal_files@[i].0, texts(self.terminal_files@[i].1@)),
            ),
            log: changes_view(self.file_changes@),
            overlaps: self.conflict_detector.entries(),
            strategy: self.conflict_detector.strategy(),
        }
    }
}

/// A copy of a change.
fn copy_change(change: &FileChange) -> (copy: FileChange)
    ensures
        copy@ == change@,
{
    FileChange {
        terminal_id: change.terminal_id,
        file_path: change.file_path.clone(),
        change_type: match &change.change_type {
            ChangeType::Created => ChangeType::Created,
            ChangeType::Modified => ChangeType::Modified,
            ChangeType::Deleted => ChangeType::Deleted,
            ChangeType::Renamed { from, to } => ChangeType::Renamed {
                from: from.clone(),
                to: to.clone(),
            },
        },
        timestamp: change.timestamp,
    }
}

impl FileTracker {
    /// A tracker that tracks no session and has seen no change.
    pub fn new_disabled() -> (tracker: FileTracker)
        ensures
            tracker@ == (TrackerState {
                watched: Seq::empty(),
                log: Seq::empty(),
                overlaps: Seq::empty(),
                strategy: ConflictResolution::Warn,
            }),
    {
        let tracker = FileTracker {
            terminal_files: Vec::new(),
            file_changes: Vec::new(),
            conflict_detector: ConflictDetector::new(),
        };
        assert(tracker@.watched =~= Seq::<Watched>::empty());
        assert(tracker@.log =~= Seq::<ChangeView>::empty());
        tracker
    }

    /// Where the session named `id` stands among the watched ones, if it is there.
    fn find(&self, id: TerminalId) -> (at: Option<usize>)
        ensures
            match at {
                Some(i) => self@.tracks(id) && i == self@.index_of(id) && self@.watched[i as int].0
                    == id,
                None => !self@.tracks(id),
            },
    {
        let mut i: usize = 0;
        while i < self.terminal_files.len()
            invariant
                i <= self.terminal_files.len(),
                forall|j: int| 0 <= j < i ==> sessions_of(self@.watched)[j] != id,
            decreases self.terminal_files.len() - i,
        {
            if self.terminal_files[i].0 == id {
                proof {
                    assert(sessions_of(self@.watched)[i as int] == id);
                    lemma_position_is(sessions_of(self@.watched), id, i as int);
                }
                return Some(i);
            }
            i += 1;
        }
        proof {
            lemma_position_is(sessions_of(self@.watched), id, i as int);
        }
        None
    }

    /// Starts to track the session named `terminal_id`, with no files.
    pub fn start_tracking_terminal(&mut self, terminal_id: TerminalId)
        ensures
            final(self)@ == old(self)@.started(terminal_id),
    {
        match self.find(terminal_id) {
            Some(at) => {
                let none: Vec<String> = Vec::new();
                assert(texts(none@) =~= Seq::<Seq<char>>::empty());
                self.terminal_files[at].1 = none;
                assert(self@.watched =~= old(self)@.started(terminal_id).watched);
            },
            None => {
                let none: Vec<String> = Vec::new();
                assert(texts(none@) =~= Seq::<Seq<char>>::empty());
                self.terminal_files.push((terminal_id, none));
                assert(self@.watched =~= old(self)@.started(terminal_id).watched);
            },
        }
    }

    /// Stops to track the session named `terminal_id`.
    pub fn stop_tracking_terminal(&mut self, terminal_id: TerminalId)
        ensures
            final(self)@ == old(self)@.stopped(terminal_id),
    {
        match self.find(terminal_id) {
            Some(at) => {
                self.terminal_files.remove(at);
                assert(self@.watched =~= old(self)@.stopped(terminal_id).watched);
            },
            None => {},
        }
        self.conflict_detector.remove_terminal(terminal_id);
    }

    /// Notes that the session named `terminal_id` works on `file`, if the
    /// session is watched.
    pub fn track_file(&mut self, terminal_id: TerminalId, file: String)
        ensures
            final(self)@ == old(self)@.with_file(terminal_id, file@),
    {
        match self.find(terminal_id) {
            Some(at) => {
                if find_text(&self.terminal_files[at].1, &file).is_none() {
                    self.terminal_files[at].1.push(file.clone());
                    assert(texts(self.terminal_files@[at as int].1@) =~= inserted(
                        old(self)@.watched[at as int].1,
                        file@,
                    ));
                }
                assert(self@.watched[at as int].1 == inserted(
                    old(self)@.watched[at as int].1,
                    file@,
                ));
                assert(self@.watched =~= old(self)@.with_file(terminal_id, file@).watched);
                self.conflict_detector.add_file_terminal(file, terminal_id);
            },
            None => {},
        }
    }

    /// Notes that the session named `terminal_id` works on `file` no more,
    /// if the session is watched.
    pub fn untrack_file(&mut self, terminal_id: TerminalId, file: &String)
        ensures
            final(self)@ == old(self)@.without_file(terminal_id, file@),
    {
        match self.find(terminal_id) {
            Some(at) => {
                match find_text(&self.terminal_files[at].1, file) {
                    Some(k) => {
                        self.terminal_files[at].1.remove(k);
                        assert(texts(self.terminal_files@[at as int].1@) =~= taken_out(
                            old(self)@.watched[at as int].1,
                            file@,
                        ));
                    },
                    None => {},
                }
                assert(self@.watched[at as int].1 == taken_out(
                    old(self)@.watched[at as int].1,
                    file@,
                ));
                assert(self@.watched =~= old(self)@.without_file(terminal_id, file@).watched);
                self.conflict_detector.remove_file_terminal(file, terminal_id);
            },
            None => {},
        }
    }

    /// The files of the session named `terminal_id`; none where the
    /// session is not watched.
    pub fn get_terminal_files(&self, terminal_id: TerminalId) -> (files: Vec<String>)
        ensures
            texts(files@) == (if self@.tracks(terminal_id) {
                self@.watched[self@.index_of(terminal_id)].1
            } else {
                Seq::empty()
            }),
    {
        match self.find(terminal_id) {
            Some(at) => copy_texts(&self.terminal_files[at].1),
            None => {
                let files: Vec<String> = Vec::new();
                assert(texts(files@) =~= Seq::<Seq<char>>::empty());
                files
            },
        }
    }

    /// Adds the change that `event` tells of to the log, and drops the
    /// oldest changes beyond the capacity of the log.
    pub fn record_event(&mut self, event: FileEvent)
        ensures
            final(self)@ == (TrackerState {
                log: logged(old(self)@.log, change_of(event.path@, event.kind, event.timestamp)),
                ..old(self)@
            }),
    {
        let change = FileChange {
            terminal_id: None,
            file_path: event.path,
            change_type: match event.kind {
                FileEventKind::Create => ChangeType::Created,
                FileEventKind::Modify => ChangeType::Modified,
                FileEventKind::Delete => ChangeType::Deleted,
            },
            timestamp: event.timestamp,
        };
        let ghost longer = old(self)@.log.push(change@);
        self.file_changes.push(change);
        assert(self@.log =~= longer);
        while self.file_changes.len() > 1000
            invariant
                self@.watched == old(self)@.watched,
                self@.overlaps == old(self)@.overlaps,
                self@.strategy == old(self)@.strategy,
                self@.log.len() <= longer.len(),
                self@.log.len() >= 1000 || self@.log.len() == longer.len(),
                self@.log == longer.subrange(longer.len() - self@.log.len(), longer.len() as int),
            decreases self.file_changes.len(),
        {
            let ghost before = self@.log;
            self.file_changes.remove(0);
            assert(self@.log =~= before.subrange(1, before.len() as int));
            assert(self@.log =~= longer.subrange(
                longer.len() - self@.log.len(),
                longer.len() as int,
            ));
        }
        assert(self@.log =~= logged(old(self)@.log, change@));
    }

    /// The changes of the log that are later than `since`; all of them
    /// where no time is given.
    pub fn get_file_changes(&self, since: Option<u64>) -> (changes: Vec<FileChange>)
        ensures
            changes_view(changes@) == (match since {
                Some(time) => later_than(self@.log, time),
                None => self@.log,
            }),
    {
        let mut changes: Vec<FileChange> = Vec::new();
        let ghost log = self@.log;
        let mut i: usize = 0;
        while i < self.file_changes.len()
            invariant
                i <= self.file_changes.len(),
                log == self@.log,
                changes_view(changes@) == (match since {
                    Some(time) => later_than(log.take(i as int), time),
                    None => log.take(i as int),
                }),
            decreases self.file_changes.len() - i,
        {
            let ghost so_far = changes_view(changes@);
            assert(log.take(i + 1).drop_last() =~= log.take(i as int));
            assert(log.take(i + 1).last() == log[i as int]);
            let wanted = match since {
                Some(time) => self.file_changes[i].timestamp > time,
                None => true,
            };
            if wanted {
                changes.push(copy_change(&self.file_changes[i]));
                assert(changes_view(changes@) =~= so_far.push(log[i as int]));
            }
            assert(since is None ==> log.take(i + 1) =~= log.take(i as int).push(log[i as int]));
            i += 1;
        }
        assert(log.take(self.file_changes.len() as int) =~= log);
        changes
    }

    /// The files that more than one session works on.
    pub fn detect_conflicts(&self) -> (conflicts: Vec<FileConflict>)
        ensures
            conflicts_view(conflicts@) == conflicts_of(self@.overlaps),
    {
        self.conflict_detector.get_conflicts()
    }
}

} // verus!
