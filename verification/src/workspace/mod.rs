//! The workspace: the ordered set of sessions and the one that is active.

use vstd::prelude::*;
use vstd::string::*;
use crate::terminal::keys::KeyEvent;
use crate::terminal::session::{
    PollEvent, SessionState, TerminalEmulator, UpdateProgress, UpdateStatus, UpdateStep,
};

verus! {

/// The name of a session. Names are drawn at random when sessions are made.
pub type TerminalId = u128;

/// Why the workspace refused an operation.
#[derive(Clone, Copy, Debug, PartialEq, Eq, Structural)]
pub enum WorkspaceError {
    /// The workspace holds as many sessions as it may.
    TooManySessions,
    /// The name drawn for a new session is or was that of a session of the
    /// workspace.
    IdInUse,
    /// No session of the workspace has the name given.
    NotFound,
}

/// The index of the first of `ids` that equals `id`; the number of `ids`
/// where none does.
pub open spec fn position(ids: Seq<TerminalId>, id: TerminalId) -> int
    decreases ids.len(),
{
    if ids.len() == 0 {
        0
    } else {
        let before = position(ids.drop_last(), id);
        if before < ids.len() - 1 {
            before
        } else if ids.last() == id {
            ids.len() - 1
        } else {
            ids.len() as int
        }
    }
}

/// `position` gives the first index that holds `id`, and the length where
/// no index does.
pub proof fn lemma_position(ids: Seq<TerminalId>, id: TerminalId)
    ensures
        0 <= position(ids, id) <= ids.len(),
        position(ids, id) < ids.len() ==> ids[position(ids, id)] == id,
        forall|j: int| 0 <= j < position(ids, id) ==> ids[j] != id,
    decreases ids.len(),
{
    if ids.len() > 0 {
        lemma_position(ids.drop_last(), id);
        assert forall|j: int| 0 <= j < position(ids, id) implies ids[j] != id by {
            if j < ids.len() - 1 {
                assert(ids.drop_last()[j] == ids[j]);
            }
        }
    }
}

/// An index that holds `id`, with none before it that does, is its position.
pub proof fn lemma_position_is(ids: Seq<TerminalId>, id: TerminalId, i: int)
    requires
        0 <= i <= ids.len(),
        i < ids.len() ==> ids[i] == id,
        forall|j: int| 0 <= j < i ==> ids[j] != id,
    ensures
        position(ids, id) == i,
{
    lemma_position(ids, id);
}

/// The decimal digits of `n` as characters, most significant first.
pub open spec fn decimal_text(n: nat) -> Seq<char>
    decreases n,
{
    if n < 10 {
        seq![((0x30 + n) as u8) as char]
    } else {
        decimal_text(n / 10).push(((0x30 + n % 10) as u8) as char)
    }
}

/// The title of the `n`-th session of a workspace.
pub open spec fn title_text(n: nat) -> Seq<char> {
    "Terminal "@ + decimal_text(n)
}

/// The model of one session of the workspace.
pub struct SessionEntry {
    pub id: TerminalId,
    pub title: Seq<char>,
    pub command: Seq<char>,
    pub emulator: SessionState,
    pub working_dir: Seq<char>,
    pub worktree_path: Option<Seq<char>>,
}

/// The model of the workspace.
pub struct WorkspaceState {
    /// The sessions, oldest first.
    pub sessions: Seq<SessionEntry>,
    /// The session that takes the keys.
    pub active: Option<TerminalId>,
    /// The directory in which new sessions start.
    pub project_dir: Seq<char>,
    /// How many sessions the workspace may hold.
    pub max_terminals: int,
    /// Whether a redraw is owed to the screen.
    pub redraw: bool,
    /// The names of the sessions that were closed, in the order of their
    /// closing. No later session gets one of them.
    pub retired: Seq<TerminalId>,
}

/// Whether an update step ended with something new on the screen.
pub open spec fn step_damages(step: UpdateStep) -> bool {
    step == UpdateStep::Done(UpdateStatus::Damaged) || step == UpdateStep::Done(
        UpdateStatus::Died,
    )
}

impl WorkspaceState {
    /// The names of the sessions, oldest first.
    pub open spec fn ids(self) -> Seq<TerminalId> {
        Seq::new(self.sessions.len(), |i: int| self.sessions[i].id)
    }

    /// Where the session named `id` stands; the number of sessions where
    /// there is none.
    pub open spec fn index_of(self, id: TerminalId) -> int {
        position(self.ids(), id)
    }

    /// Whether a session is named `id`.
    pub open spec fn has(self, id: TerminalId) -> bool {
        self.index_of(id) < self.sessions.len()
    }

    /// Whether a session that was closed had the name `id`.
    pub open spec fn was_closed(self, id: TerminalId) -> bool {
        self.retired.contains(id)
    }

    /// No two sessions share a name, no session has the name of one that
    /// was closed, every session is well formed, the active session is one
    /// of the workspace, and there is one whenever the workspace holds a
    /// session.
    pub open spec fn wf(self) -> bool {
        &&& forall|i: int, j: int|
            0 <= i < j < self.sessions.len() ==> self.sessions[i].id != self.sessions[j].id
        &&& forall|i: int, j: int|
            #![trigger self.sessions[i], self.retired[j]]
            0 <= i < self.sessions.len() && 0 <= j < self.retired.len() ==> self.sessions[i].id
                != self.retired[j]
        &&& forall|i: int| 0 <= i < self.sessions.len() ==> (#[trigger] self.sessions[i]).emulator.wf()
        &&& match self.active {
            Some(id) => self.has(id),
            None => self.sessions.len() == 0,
        }
    }

    /// An empty workspace for `project_dir` that may hold ten sessions.
    pub open spec fn fresh(project_dir: Seq<char>) -> WorkspaceState {
        WorkspaceState {
            sessions: Seq::empty(),
            active: None,
            project_dir,
            max_terminals: 10,
            redraw: false,
            retired: Seq::empty(),
        }
    }

    /// The session that `created` adds: a fresh screen of 80 by 24 in the
    /// project directory, titled by its place in the workspace.
    pub open spec fn new_entry(self, id: TerminalId, command: Seq<char>) -> SessionEntry {
        SessionEntry {
            id,
            title: title_text((self.sessions.len() + 1) as nat),
            command,
            emulator: SessionState::fresh(80, 24),
            working_dir: self.project_dir,
            worktree_path: None,
        }
    }

    /// The workspace with a new session named `id` at its end; the session
    /// becomes active where none was.
    pub open spec fn created(self, id: TerminalId, command: Seq<char>) -> WorkspaceState {
        WorkspaceState {
            sessions: self.sessions.push(self.new_entry(id, command)),
            active: if self.active is None {
                Some(id)
            } else {
                self.active
            },
            ..self
        }
    }

    /// What `create_terminal` answers for a newly drawn name `id`: a full
    /// workspace refuses, and so does one in which a session has or had
    /// that name.
    pub open spec fn create_result(self, id: TerminalId) -> Result<TerminalId, WorkspaceError> {
        if self.sessions.len() >= self.max_terminals {
            Err(WorkspaceError::TooManySessions)
        } else if self.has(id) || self.was_closed(id) {
            Err(WorkspaceError::IdInUse)
        } else {
            Ok(id)
        }
    }

    /// The workspace without the session named `id`, which no later session
    /// gets. Where that session was active, the first of those that remain
    /// is active now.
    pub open spec fn closed(self, id: TerminalId) -> WorkspaceState {
        let at = self.index_of(id);
        if at >= self.sessions.len() {
            self
        } else {
            let rest = self.sessions.remove(at);
            WorkspaceState {
                sessions: rest,
                active: if self.active == Some(id) {
                    if rest.len() > 0 {
                        Some(rest[0].id)
                    } else {
                        None
                    }
                } else {
                    self.active
                },
                retired: self.retired.push(id),
                ..self
            }
        }
    }

    /// The workspace with the session at `index` active; unchanged where
    /// there is no such session.
    pub open spec fn switched_to(self, index: int) -> WorkspaceState {
        if 0 <= index < self.sessions.len() {
            WorkspaceState { active: Some(self.sessions[index].id), ..self }
        } else {
            self
        }
    }

    /// The workspace with the session named `id` active; unchanged where
    /// there is no such session.
    pub open spec fn with_active(self, id: TerminalId) -> WorkspaceState {
        if self.has(id) {
            WorkspaceState { active: Some(id), ..self }
        } else {
            self
        }
    }

    /// The workspace with the session after the active one active, the first
    /// after the last.
    pub open spec fn next(self) -> WorkspaceState {
        if self.sessions.len() == 0 {
            self
        } else {
            match self.active {
                Some(id) => if self.has(id) {
                    self.switched_to((self.index_of(id) + 1) % (self.sessions.len() as int))
                } else {
                    self
                },
                None => self.switched_to(0),
            }
        }
    }

    /// The workspace with the session before the active one active, the last
    /// before the first.
    pub open spec fn previous(self) -> WorkspaceState {
        if self.sessions.len() == 0 {
            self
        } else {
            match self.active {
                Some(id) => if self.has(id) {
                    if self.index_of(id) == 0 {
                        self.switched_to(self.sessions.len() - 1)
                    } else {
                        self.switched_to(self.index_of(id) - 1)
                    }
                } else {
                    self
                },
                None => self.switched_to(0),
            }
        }
    }

    /// The workspace with `emulator` in place of the state of the session at `index`.
    pub open spec fn with_emulator(self, index: int, emulator: SessionState) -> WorkspaceState {
        WorkspaceState {
            sessions: self.sessions.update(
                index,
                SessionEntry { emulator, ..self.sessions[index] },
            ),
            ..self
        }
    }

    /// The workspace after `key` went to the active session.
    pub open spec fn key_sent(self, key: KeyEvent) -> WorkspaceState {
        match self.active {
            Some(id) => if self.has(id) {
                let at = self.index_of(id);
                self.with_emulator(at, self.sessions[at].emulator.send_key(key))
            } else {
                self
            },
            None => self,
        }
    }

    /// The workspace after the session named `id` took the size given.
    pub open spec fn resized(self, id: TerminalId, width: u16, height: u16) -> WorkspaceState {
        if self.has(id) {
            let at = self.index_of(id);
            self.with_emulator(at, self.sessions[at].emulator.resize(width, height))
        } else {
            self
        }
    }

    /// The workspace after the session named `id` moved to the worktree
    /// at `path`.
    pub open spec fn with_worktree(self, id: TerminalId, path: Seq<char>) -> WorkspaceState {
        if self.has(id) {
            let at = self.index_of(id);
            WorkspaceState {
                sessions: self.sessions.update(
                    at,
                    SessionEntry {
                        working_dir: path,
                        worktree_path: Some(path),
                        ..self.sessions[at]
                    },
                ),
                ..self
            }
        } else {
            self
        }
    }

    /// What an update pass on the session named `id` asks for first.
    pub open spec fn begin_update(self, id: TerminalId, budget: usize) -> UpdateStep {
        if self.has(id) {
            self.sessions[self.index_of(id)].emulator.begin_update(budget)
        } else {
            UpdateStep::Done(UpdateStatus::NoChange)
        }
    }

    /// What the update pass on the session named `id` asks for after a poll.
    pub open spec fn next_step(
        self,
        id: TerminalId,
        progress: UpdateProgress,
        event: PollEvent,
    ) -> UpdateStep {
        if self.has(id) {
            self.sessions[self.index_of(id)].emulator.next_step(progress, event)
        } else {
            UpdateStep::Done(UpdateStatus::NoChange)
        }
    }

    /// The workspace after a poll of the session named `id`: the session
    /// takes the result in, and a redraw is owed as soon as a pass ends
    /// damaged or died.
    pub open spec fn after_poll(
        self,
        id: TerminalId,
        progress: UpdateProgress,
        event: PollEvent,
    ) -> WorkspaceState {
        if self.has(id) {
            let at = self.index_of(id);
            let emulator = self.sessions[at].emulator;
            WorkspaceState {
                redraw: self.redraw || step_damages(emulator.next_step(progress, event)),
                ..self.with_emulator(at, emulator.after_poll(event))
            }
        } else {
            self
        }
    }
}

/// `uuid::Uuid::new_v4`, as a number: a name drawn at random. Nothing is
/// claimed of the number that comes back.
#[verifier::external_body]
fn draw_id() -> (id: TerminalId) {
    uuid::Uuid::new_v4().as_u128()
}

/// The text of an optional string.
pub open spec fn option_text(text: Option<String>) -> Option<Seq<char>> {
    match text {
        Some(s) => Some(s@),
        None => None,
    }
}

/// One session of the workspace.
pub struct TerminalSession {
    pub id: TerminalId,
    pub title: String,
    pub command: String,
    pub emulator: TerminalEmulator,
    pub working_dir: String,
    pub worktree_path: Option<String>,
}

impl View for TerminalSession {
    type V = SessionEntry;

    open spec fn view(&self) -> SessionEntry {
        SessionEntry {
            id: self.id,
            title: self.title@,
            command: self.command@,
            emulator: self.emulator@,
            working_dir: self.working_dir@,
            worktree_path: option_text(self.worktree_path),
        }
    }
}

/// What the workspace tells of one session.
#[derive(Debug)]
pub struct TerminalInfo {
    pub id: TerminalId,
    pub title: String,
    pub working_dir: String,
    pub active_files_count: usize,
    pub has_worktree: bool,
}

/// What `terminals` tells of the session `entry`.
pub open spec fn info_matches(info: TerminalInfo, entry: SessionEntry) -> bool {
    &&& info.id == entry.id
    &&& info.title@ == entry.title
    &&& info.working_dir@ == entry.working_dir
    &&& info.active_files_count == entry.emulator.active_files.len()
    &&& info.has_worktree == (entry.worktree_path is Some)
}

/// The workspace: the sessions in the order of their creation, and the
/// active one.
pub struct WorkspaceManager {
    terminals: Vec<TerminalSession>,
    active_terminal: Option<TerminalId>,
    project_dir: String,
    max_terminals: usize,
    redraw: bool,
    retired: Vec<TerminalId>,
}

impl View for WorkspaceManager {
    type V = WorkspaceState;

    closed spec fn view(&self) -> WorkspaceState {
        WorkspaceState {
            sessions: Seq::new(self.terminals.len() as nat, |i: int| self.terminals[i]@),
            active: self.active_terminal,
            project_dir: self.project_dir@,
            max_terminals: self.max_terminals as int,
            redraw: self.redraw,
            retired: self.retired@,
        }
    }
}

fn push_decimal_text(out: &mut String, n: usize)
    ensures
        final(out)@ == old(out)@ + decimal_text(n as nat),
    decreases n,
{
    if n >= 10 {
        push_decimal_text(out, n / 10);
    }
    out.push((0x30 + (n % 10) as u8) as char);
    assert(out@ =~= old(out)@ + decimal_text(n as nat));
}

fn make_title(n: usize) -> (title: String)
    ensures
        title@ == title_text(n as nat),
{
    let mut title = "Terminal ".to_owned();
    push_decimal_text(&mut title, n);
    title
}

impl WorkspaceManager {
    /// The invariant of a workspace: its model is well formed.
    pub open spec fn wf(&self) -> bool {
        self@.wf()
    }

    /// An empty workspace for `project_dir`.
    pub fn new(project_dir: String) -> (workspace: WorkspaceManager)
        ensures
            workspace.wf(),
            workspace@ == WorkspaceState::fresh(project_dir@),
    {
        let workspace = WorkspaceManager {
            terminals: Vec::new(),
            active_terminal: None,
            project_dir,
            max_terminals: 10,
            redraw: false,
            retired: Vec::new(),
        };
        assert(workspace@.sessions =~= Seq::<SessionEntry>::empty());
        assert(workspace@.ids() =~= Seq::<TerminalId>::empty());
        workspace
    }

    /// Sets how many sessions the workspace may hold. Sessions that it
    /// holds beyond that number stay.
    pub fn set_max_terminals(&mut self, max_terminals: usize)
        ensures
            final(self)@ == (WorkspaceState { max_terminals: max_terminals as int, ..old(self)@ }),
            old(self).wf() ==> final(self).wf(),
    {
        self.max_terminals = max_terminals;
    }

    /// Where the session named `id` stands in the workspace, if it is there.
    pub fn find(&self, id: TerminalId) -> (at: Option<usize>)
        ensures
            match at {
                Some(i) => self@.has(id) && i == self@.index_of(id) && self@.sessions[i as int].id
                    == id,
                None => !self@.has(id),
            },
    {
        let mut i: usize = 0;
        while i < self.terminals.len()
            invariant
                i <= self.terminals.len(),
                forall|j: int| 0 <= j < i ==> self@.ids()[j] != id,
            decreases self.terminals.len() - i,
        {
            if self.terminals[i].id == id {
                proof {
                    lemma_position_is(self@.ids(), id, i as int);
                }
                return Some(i);
            }
            i += 1;
        }
        proof {
            lemma_position_is(self@.ids(), id, i as int);
        }
        None
    }

    /// Whether a session that was closed had the name `id`.
    pub fn was_closed(&self, id: TerminalId) -> (found: bool)
        ensures
            found == self@.was_closed(id),
    {
        let mut i: usize = 0;
        while i < self.retired.len()
            invariant
                i <= self.retired.len(),
                forall|j: int| 0 <= j < i ==> self.retired@[j] != id,
            decreases self.retired.len() - i,
        {
            if self.retired[i] == id {
                return true;
            }
            i += 1;
        }
        false
    }

    /// Adds a session named `id` that is to run `command`, unless the
    /// workspace is full or a session of it has or had that name.
    pub fn create_terminal_with_id(&mut self, id: TerminalId, command: String) -> (result: Result<
        TerminalId,
        WorkspaceError,
    >)
        requires
            old(self).wf(),
        ensures
            final(self).wf(),
            result == old(self)@.create_result(id),
            result is Ok ==> final(self)@ == old(self)@.created(id, command@),
            result is Err ==> final(self)@ == old(self)@,
    {
        if self.terminals.len() >= self.max_terminals {
            return Err(WorkspaceError::TooManySessions);
        }
        if self.find(id).is_some() || self.was_closed(id) {
            return Err(WorkspaceError::IdInUse);
        }
        let title = make_title(self.terminals.len() + 1);
        let session = TerminalSession {
            id,
            title,
            command,
            emulator: TerminalEmulator::new((80, 24)),
            working_dir: self.project_dir.clone(),
            worktree_path: None,
        };
        let ghost entry = old(self)@.new_entry(id, command@);
        assert(session@ == entry);
        self.terminals.push(session);
        if self.active_terminal.is_none() {
            self.active_terminal = Some(id);
        }
        proof {
            let goal = old(self)@.created(id, command@);
            assert(self@.sessions =~= goal.sessions);
            lemma_position(old(self)@.ids(), id);
            assert(self@.ids().drop_last() =~= old(self)@.ids());
            assert forall|i: int, j: int| 0 <= i < j < self@.sessions.len() implies self@.sessions[i].id
                != self@.sessions[j].id by {
                if j == self@.sessions.len() - 1 {
                    assert(old(self)@.ids()[i] == self@.sessions[i].id);
                }
            }
            match self@.active {
                Some(active) => {
                    if active != id {
                        lemma_position(old(self)@.ids(), active);
                    }
                },
                None => {},
            }
        }
        Ok(id)
    }

    /// Adds a session that is to run `command`, or the shell where there is
    /// none, under a name drawn at random. A full workspace refuses. The
    /// name that was drawn decides the rest: it is refused if a session of
    /// the workspace has or had it, so a workspace that never held a
    /// session and has room for one gets its session.
    pub fn create_terminal(&mut self, command: Option<String>) -> (result: Result<
        TerminalId,
        WorkspaceError,
    >)
        requires
            old(self).wf(),
        ensures
            final(self).wf(),
            exists|id: TerminalId| #[trigger] old(self)@.create_result(id) == result,
            old(self)@.sessions.len() >= old(self)@.max_terminals ==> result == Err::<
                TerminalId,
                WorkspaceError,
            >(WorkspaceError::TooManySessions),
            old(self)@.sessions.len() == 0 && old(self)@.retired.len() == 0 && old(
                self,
            )@.max_terminals > 0 ==> result is Ok,
            match result {
                Ok(id) => old(self)@.create_result(id) == result && final(self)@ == old(
                    self,
                )@.created(id, option_or_empty(option_text(command))),
                Err(e) => final(self)@ == old(self)@ && (e == WorkspaceError::TooManySessions
                    <==> old(self)@.sessions.len() >= old(self)@.max_terminals) && (e
                    == WorkspaceError::TooManySessions || e == WorkspaceError::IdInUse),
            },
    {
        let command = match command {
            Some(text) => text,
            None => String::new(),
        };
        let id = draw_id();
        proof {
            lemma_position(self@.ids(), id);
        }
        self.create_terminal_with_id(id, command)
    }

    /// Removes the session named `id` and says whether there was one.
    pub fn close_terminal(&mut self, id: TerminalId) -> (closed: bool)
        requires
            old(self).wf(),
        ensures
            final(self).wf(),
            closed == old(self)@.has(id),
            final(self)@ == old(self)@.closed(id),
    {
        match self.find(id) {
            None => false,
            Some(at) => {
                let ghost before = self@;
                self.terminals.remove(at);
                self.retired.push(id);
                if self.active_terminal == Some(id) {
                    if self.terminals.len() > 0 {
                        self.active_terminal = Some(self.terminals[0].id);
                    } else {
                        self.active_terminal = None;
                    }
                }
                proof {
                    let goal = before.closed(id);
                    assert(self@.sessions =~= goal.sessions);
                    lemma_closed_keeps_wf(before, id);
                }
                true
            },
        }
    }

    /// Removes the active session, if there is one, and says whether there was.
    pub fn close_active_terminal(&mut self) -> (closed: bool)
        requires
            old(self).wf(),
        ensures
            final(self).wf(),
            closed == (old(self)@.active is Some),
            final(self)@ == (match old(self)@.active {
                Some(id) => old(self)@.closed(id),
                None => old(self)@,
            }),
    {
        match self.active_terminal {
            Some(id) => self.close_terminal(id),
            None => false,
        }
    }

    /// What the workspace tells of its sessions, oldest first.
    pub fn terminals(&self) -> (infos: Vec<TerminalInfo>)
        ensures
            infos@.len() == self@.sessions.len(),
            forall|i: int|
                0 <= i < infos@.len() ==> info_matches(#[trigger] infos@[i], self@.sessions[i]),
    {
        let mut infos: Vec<TerminalInfo> = Vec::new();
        let mut i: usize = 0;
        while i < self.terminals.len()
            invariant
                i <= self.terminals.len(),
                infos@.len() == i,
                forall|j: int| 0 <= j < i ==> info_matches(#[trigger] infos@[j], self@.sessions[j]),
            decreases self.terminals.len() - i,
        {
            let session = &self.terminals[i];
            infos.push(
                TerminalInfo {
                    id: session.id,
                    title: session.title.clone(),
                    working_dir: session.working_dir.clone(),
                    active_files_count: session.emulator.get_active_files().len(),
                    has_worktree: session.worktree_path.is_some(),
                },
            );
            i += 1;
        }
        infos
    }

    /// The names of the sessions, oldest first.
    pub fn terminal_ids(&self) -> (ids: Vec<TerminalId>)
        ensures
            ids@ == self@.ids(),
    {
        let mut ids: Vec<TerminalId> = Vec::new();
        let mut i: usize = 0;
        while i < self.terminals.len()
            invariant
                i <= self.terminals.len(),
                ids@.len() == i,
                forall|j: int| 0 <= j < i ==> (#[trigger] ids@[j]) == self@.sessions[j].id,
            decreases self.terminals.len() - i,
        {
            ids.push(self.terminals[i].id);
            i += 1;
        }
        assert(ids@ =~= self@.ids());
        ids
    }

    /// The name of the active session.
    pub fn active_terminal_id(&self) -> (id: Option<TerminalId>)
        ensures
            id == self@.active,
    {
        self.active_terminal
    }

    /// Makes the session after the active one active.
    pub fn next_terminal(&mut self)
        requires
            old(self).wf(),
        ensures
            final(self).wf(),
            final(self)@ == old(self)@.next(),
    {
        let len = self.terminals.len();
        if len == 0 {
            return ;
        }
        match self.active_terminal {
            Some(id) => {
                match self.find(id) {
                    Some(at) => {
                        let target = if at + 1 == len { 0 } else { at + 1 };
                        proof {
                            if at + 1 == len {
                                vstd::arithmetic::div_mod::lemma_mod_self_0(len as int);
                            } else {
                                vstd::arithmetic::div_mod::lemma_small_mod(
                                    (at + 1) as nat,
                                    len as nat,
                                );
                            }
                        }
                        self.switch_to_terminal(target);
                    },
                    None => {},
                }
            },
            None => {
                self.switch_to_terminal(0);
            },
        }
    }

    /// Makes the session before the active one active.
    pub fn previous_terminal(&mut self)
        requires
            old(self).wf(),
        ensures
            final(self).wf(),
            final(self)@ == old(self)@.previous(),
    {
        let len = self.terminals.len();
        if len == 0 {
            return ;
        }
        match self.active_terminal {
            Some(id) => {
                match self.find(id) {
                    Some(at) => {
                        let target = if at == 0 { len - 1 } else { at - 1 };
                        self.switch_to_terminal(target);
                    },
                    None => {},
                }
            },
            None => {
                self.switch_to_terminal(0);
            },
        }
    }

    /// Makes the session at `index` active, if there is one.
    pub fn switch_to_terminal(&mut self, index: usize)
        requires
            old(self).wf(),
        ensures
            final(self).wf(),
            final(self)@ == old(self)@.switched_to(index as int),
    {
        if index < self.terminals.len() {
            let id = self.terminals[index].id;
            self.active_terminal = Some(id);
            proof {
                lemma_position(self@.ids(), id);
                assert(self@.ids()[index as int] == id);
            }
        }
    }

    /// Makes the session named `id` active, if there is one.
    pub fn set_active_terminal(&mut self, id: TerminalId)
        requires
            old(self).wf(),
        ensures
            final(self).wf(),
            final(self)@ == old(self)@.with_active(id),
    {
        if self.find(id).is_some() {
            self.active_terminal = Some(id);
        }
    }

    /// Sends `key` to the active session.
    pub fn send_key_to_active_terminal(&mut self, key: KeyEvent)
        requires
            old(self).wf(),
        ensures
            final(self).wf(),
            final(self)@ == old(self)@.key_sent(key),
    {
        match self.active_terminal {
            Some(id) => {
                match self.find(id) {
                    Some(at) => {
                        let ghost before = self@;
                        self.terminals[at].emulator.handle_key_event(key);
                        proof {
                            let goal = before.key_sent(key);
                            assert(self@.sessions =~= goal.sessions);
                            assert(self@.ids() =~= before.ids());
                        }
                    },
                    None => {},
                }
            },
            None => {},
        }
    }

    /// Gives the session named `id` a new size, if there is such a session.
    pub fn resize_terminal(&mut self, id: TerminalId, width: u16, height: u16)
        requires
            old(self).wf(),
            width > 0,
            height > 0,
        ensures
            final(self).wf(),
            final(self)@ == old(self)@.resized(id, width, height),
    {
        match self.find(id) {
            Some(at) => {
                let ghost before = self@;
                assert(before.sessions[at as int].emulator.wf());
                self.terminals[at].emulator.resize((width, height));
                proof {
                    let goal = before.resized(id, width, height);
                    assert(self@.sessions =~= goal.sessions);
                    assert(self@.ids() =~= before.ids());
                }
            },
            None => {},
        }
    }

    /// Starts an update pass on the session named `id` that may poll
    /// `budget` times. Where there is no such session the pass is over.
    pub fn update(&self, id: TerminalId, budget: usize) -> (step: UpdateStep)
        ensures
            step == self@.begin_update(id, budget),
    {
        match self.find(id) {
            Some(at) => self.terminals[at].emulator.update(budget),
            None => UpdateStep::Done(UpdateStatus::NoChange),
        }
    }

    /// Hands the result of one poll to the session named `id` and says what
    /// its update pass asks for next. A pass that ends damaged or died
    /// leaves a redraw owed.
    pub fn on_poll(&mut self, id: TerminalId, progress: UpdateProgress, event: PollEvent) -> (step:
        UpdateStep)
        requires
            old(self).wf(),
        ensures
            final(self).wf(),
            step == old(self)@.next_step(id, progress, event),
            final(self)@ == old(self)@.after_poll(id, progress, event),
    {
        match self.find(id) {
            Some(at) => {
                let ghost before = self@;
                assert(before.sessions[at as int].emulator.wf());
                let step = self.terminals[at].emulator.on_poll(progress, event);
                match step {
                    UpdateStep::Done(UpdateStatus::Damaged) => {
                        self.redraw = true;
                    },
                    UpdateStep::Done(UpdateStatus::Died) => {
                        self.redraw = true;
                    },
                    _ => {},
                }
                proof {
                    let goal = before.after_poll(id, progress, event);
                    assert(self@.sessions =~= goal.sessions);
                    assert(self@.ids() =~= before.ids());
                }
                step
            },
            None => UpdateStep::Done(UpdateStatus::NoChange),
        }
    }

    /// Says whether a redraw is owed, and forgets it.
    pub fn take_redraw(&mut self) -> (redraw: bool)
        ensures
            redraw == old(self)@.redraw,
            final(self)@ == (WorkspaceState { redraw: false, ..old(self)@ }),
            old(self).wf() ==> final(self).wf(),
    {
        let redraw = self.redraw;
        self.redraw = false;
        redraw
    }

    /// Hands over the bytes that the session named `id` owes to its
    /// pseudo-terminal, and forgets them.
    pub fn take_output(&mut self, id: TerminalId) -> (result: Result<Vec<u8>, WorkspaceError>)
        requires
            old(self).wf(),
        ensures
            final(self).wf(),
            match result {
                Ok(bytes) => old(self)@.has(id) && bytes@ == old(self)@.sessions[old(
                    self,
                )@.index_of(id)].emulator.outbox && final(self)@ == old(self)@.with_emulator(
                    old(self)@.index_of(id),
                    SessionState {
                        outbox: Seq::empty(),
                        ..old(self)@.sessions[old(self)@.index_of(id)].emulator
                    },
                ),
                Err(e) => !old(self)@.has(id) && e == WorkspaceError::NotFound && final(self)@
                    == old(self)@,
            },
    {
        match self.find(id) {
            Some(at) => {
                let ghost before = self@;
                assert(before.sessions[at as int].emulator.wf());
                let bytes = self.terminals[at].emulator.take_output();
                proof {
                    let goal = before.with_emulator(
                        at as int,
                        SessionState {
                            outbox: Seq::empty(),
                            ..before.sessions[at as int].emulator
                        },
                    );
                    assert(self@.sessions =~= goal.sessions);
                    assert(self@.ids() =~= before.ids());
                }
                Ok(bytes)
            },
            None => Err(WorkspaceError::NotFound),
        }
    }

    /// The session named `id`.
    pub fn get_terminal_emulator(&self, id: TerminalId) -> (emulator: Option<&TerminalEmulator>)
        ensures
            emulator is Some <==> self@.has(id),
            emulator matches Some(e) ==> e@ == self@.sessions[self@.index_of(id)].emulator,
            emulator matches Some(e) ==> (self.wf() ==> e.wf()),
    {
        match self.find(id) {
            Some(at) => Some(&self.terminals[at].emulator),
            None => None,
        }
    }

    /// The active session.
    pub fn get_active_terminal_emulator(&self) -> (emulator: Option<&TerminalEmulator>)
        ensures
            emulator is Some <==> (self@.active matches Some(id) && self@.has(id)),
            emulator matches Some(e) ==> e@ == self@.sessions[self@.index_of(
                self@.active.unwrap(),
            )].emulator,
            emulator matches Some(e) ==> (self.wf() ==> e.wf()),
    {
        match self.active_terminal {
            Some(id) => self.get_terminal_emulator(id),
            None => None,
        }
    }

    /// Hands over the size that the pseudo-terminal of the session named
    /// `id` is to take, if it is to take one, and forgets the request.
    pub fn take_resize_request(&mut self, id: TerminalId) -> (request: Option<(u16, u16)>)
        requires
            old(self).wf(),
        ensures
            final(self).wf(),
            request == (if old(self)@.has(id) {
                old(self)@.sessions[old(self)@.index_of(id)].emulator.resize_request
            } else {
                None
            }),
            final(self)@ == (if old(self)@.has(id) {
                old(self)@.with_emulator(
                    old(self)@.index_of(id),
                    SessionState {
                        resize_request: None,
                        ..old(self)@.sessions[old(self)@.index_of(id)].emulator
                    },
                )
            } else {
                old(self)@
            }),
    {
        match self.find(id) {
            Some(at) => {
                let ghost before = self@;
                assert(before.sessions[at as int].emulator.wf());
                let request = self.terminals[at].emulator.take_resize_request();
                proof {
                    let goal = before.with_emulator(
                        at as int,
                        SessionState {
                            resize_request: None,
                            ..before.sessions[at as int].emulator
                        },
                    );
                    assert(self@.sessions =~= goal.sessions);
                    assert(self@.ids() =~= before.ids());
                }
                request
            },
            None => None,
        }
    }

    /// Gives the session named `id` the worktree at `path`: the session
    /// works there from now on. Says whether there is such a session.
    pub fn attach_worktree(&mut self, id: TerminalId, path: String) -> (attached: bool)
        requires
            old(self).wf(),
        ensures
            final(self).wf(),
            attached == old(self)@.has(id),
            final(self)@ == old(self)@.with_worktree(id, path@),
    {
        match self.find(id) {
            Some(at) => {
                let ghost before = self@;
                self.terminals[at].working_dir = path.clone();
                self.terminals[at].worktree_path = Some(path);
                proof {
                    let goal = before.with_worktree(id, path@);
                    assert(self@.sessions =~= goal.sessions);
                    assert(self@.ids() =~= before.ids());
                }
                true
            },
            None => false,
        }
    }

    /// The session named `id`, with its title, command and directories.
    pub fn get_terminal_session(&self, id: TerminalId) -> (session: Option<&TerminalSession>)
        ensures
            session is Some <==> self@.has(id),
            session matches Some(s) ==> s@ == self@.sessions[self@.index_of(id)],
    {
        match self.find(id) {
            Some(at) => Some(&self.terminals[at]),
            None => None,
        }
    }
}

/// The text of an optional command: nothing where there is none.
pub open spec fn option_or_empty(text: Option<Seq<char>>) -> Seq<char> {
    match text {
        Some(s) => s,
        None => Seq::empty(),
    }
}

/// Closing a session of a well-formed workspace leaves it well formed.
pub proof fn lemma_closed_keeps_wf(w: WorkspaceState, id: TerminalId)
    requires
        w.wf(),
    ensures
        w.closed(id).wf(),
{
    let at = w.index_of(id);
    lemma_position(w.ids(), id);
    if at < w.sessions.len() {
        let after = w.closed(id);
        let rest = w.sessions.remove(at);
        assert forall|i: int| 0 <= i < rest.len() implies #[trigger] rest[i] == w.sessions[if i
            < at {
            i
        } else {
            i + 1
        }] by {}
        match after.active {
            Some(active) => {
                if w.active == Some(id) {
                    lemma_position_is(after.ids(), active, 0);
                } else {
                    let old_at = w.index_of(active);
                    lemma_position(w.ids(), active);
                    let new_at = if old_at < at {
                        old_at
                    } else {
                        old_at - 1
                    };
                    assert(after.ids()[new_at] == active);
                    lemma_position(after.ids(), active);
                }
            },
            None => {},
        }
    }
}

/// A session under a name that no session of the workspace has or had
/// leaves the workspace well formed: the names of its sessions still differ from one
/// another, and a session is active.
pub proof fn lemma_created_keeps_wf(w: WorkspaceState, id: TerminalId, command: Seq<char>)
    requires
        w.wf(),
        !w.has(id),
        !w.was_closed(id),
    ensures
        w.created(id, command).wf(),
        w.created(id, command).has(id),
        w.created(id, command).active is Some,
        w.created(id, command).sessions.len() == w.sessions.len() + 1,
{
    let after = w.created(id, command);
    lemma_position(w.ids(), id);
    assert(after.ids().drop_last() =~= w.ids());
    assert(after.ids().last() == id);
    assert forall|i: int, j: int| 0 <= i < j < after.sessions.len() implies after.sessions[i].id
        != after.sessions[j].id by {
        if j == after.sessions.len() - 1 {
            assert(w.ids()[i] == after.sessions[i].id);
        }
    }
    match after.active {
        Some(active) => {
            if active != id {
                lemma_position(w.ids(), active);
            }
        },
        None => {},
    }
}

/// A creation attempt on a full workspace is refused and changes nothing,
/// whatever name is drawn.
pub proof fn lemma_create_at_the_cap(w: WorkspaceState, id: TerminalId)
    requires
        w.sessions.len() >= w.max_terminals,
    ensures
        w.create_result(id) == Err::<TerminalId, WorkspaceError>(WorkspaceError::TooManySessions),
{
}

/// Once a session is closed, no session of the workspace has its name, and
/// a creation under that name is refused.
pub proof fn lemma_closed_name_is_refused(w: WorkspaceState, id: TerminalId)
    requires
        w.wf(),
        w.has(id),
    ensures
        !w.closed(id).has(id),
        w.closed(id).was_closed(id),
        w.closed(id).create_result(id) is Err,
{
    let after = w.closed(id);
    assert(after.retired.last() == id);
    lemma_closed_keeps_wf(w, id);
    lemma_position(after.ids(), id);
    if after.has(id) {
        let at = after.index_of(id);
        assert(after.sessions[at].id == after.ids()[at]);
        assert(after.retired[after.retired.len() - 1] == id);
    }
}

/// The name of a session that was closed stays refused: closing or
/// creating a session, choosing the active one, a key and a resize all leave
/// it among the names that were closed, so no later session gets it.
pub proof fn lemma_closed_names_stay_closed(
    w: WorkspaceState,
    name: TerminalId,
    id: TerminalId,
    command: Seq<char>,
    index: int,
    key: KeyEvent,
    width: u16,
    height: u16,
)
    requires
        w.was_closed(name),
    ensures
        w.create_result(name) is Err,
        w.closed(id).was_closed(name),
        w.created(id, command).was_closed(name),
        w.switched_to(index).was_closed(name),
        w.with_active(id).was_closed(name),
        w.next().was_closed(name),
        w.previous().was_closed(name),
        w.key_sent(key).was_closed(name),
        w.resized(id, width, height).was_closed(name),
{
    let j = choose|j: int| 0 <= j < w.retired.len() && w.retired[j] == name;
    assert(w.closed(id).retired[j] == name);
}

/// Closing the active session makes the first of the remaining sessions
/// active; closing the last session leaves none active.
pub proof fn lemma_close_active(w: WorkspaceState, id: TerminalId)
    requires
        w.wf(),
        w.active == Some(id),
    ensures
        w.sessions.len() == 1 ==> w.closed(id).active is None && w.closed(id).sessions.len() == 0,
        w.sessions.len() > 1 ==> w.closed(id).active == Some(w.closed(id).sessions[0].id),
        w.sessions.len() > 1 && w.index_of(id) == 0 ==> w.closed(id).active == Some(
            w.sessions[1].id,
        ),
        w.sessions.len() > 1 && w.index_of(id) > 0 ==> w.closed(id).active == Some(
            w.sessions[0].id,
        ),
{
    lemma_position(w.ids(), id);
}

} // verus!
