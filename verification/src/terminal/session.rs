//! One session: a screen, fed with what its child prints, and the requests
//! that the session has for its pseudo-terminal.

use vstd::prelude::*;
use vstd::string::*;
use crate::terminal::files::{ascii_texts, mentions, scan_mentions};
use crate::terminal::grid::{Cell, Colour, Grid, GridState};
use crate::terminal::keys::{KeyEvent, key_bytes, push_key};
use crate::terminal::parser::{Parser, Screen, screen_of};

verus! {

/// What one poll of the pseudo-terminal gave.
#[derive(Debug)]
pub enum PollEvent {
    /// The child printed these bytes.
    Bytes(Vec<u8>),
    /// Nothing is pending.
    WouldBlock,
    /// The child has exited, or the master has reached its end.
    Eof,
}

/// How an update pass ended.
#[derive(Clone, Copy, Debug, PartialEq, Eq, Structural)]
pub enum UpdateStatus {
    NoChange,
    Damaged,
    Died,
}

/// Where an update pass stands between two polls.
#[derive(Clone, Copy, Debug, PartialEq, Eq, Structural)]
pub struct UpdateProgress {
    /// How many polls the pass may still make.
    pub polls_left: usize,
    /// Whether the pass has processed any byte.
    pub damaged: bool,
}

/// What an update pass asks for next.
#[derive(Clone, Copy, Debug, PartialEq, Eq, Structural)]
pub enum UpdateStep {
    /// Poll the pseudo-terminal once and hand the result to `on_poll`.
    Poll(UpdateProgress),
    /// The pass is over.
    Done(UpdateStatus),
}

/// The text that a session shows once its child has exited.
pub open spec fn exit_banner_text() -> Seq<char> {
    "[Process exited — press Ctrl+W to close]"@
}

/// The foreground of the exit banner.
pub open spec fn banner_fg() -> Colour {
    Colour::BrightWhite
}

/// The background of the exit banner.
pub open spec fn banner_bg() -> Colour {
    Colour::Red
}

/// The grid with the exit banner in the cursor's row: from the first column
/// on, in the banner's colours, cut off at the last column. The cursor and
/// the pen stay.
pub open spec fn with_exit_banner(g: GridState) -> GridState {
    g.write_row(g.cursor_row, exit_banner_text(), banner_fg(), banner_bg())
}

/// The status of a pass that ends without the child's exit.
pub open spec fn status_of(damaged: bool) -> UpdateStatus {
    if damaged {
        UpdateStatus::Damaged
    } else {
        UpdateStatus::NoChange
    }
}

/// The model of a session.
pub struct SessionState {
    /// The emulated screen.
    pub screen: Screen,
    /// Whether the child is still thought to run.
    pub alive: bool,
    /// Bytes owed to the pseudo-terminal, in the order in which they were written.
    pub outbox: Seq<u8>,
    /// The size that the pseudo-terminal is to take, where it differs from
    /// the one it was last given.
    pub resize_request: Option<(u16, u16)>,
    /// Whether the pseudo-terminal is to be closed.
    pub shutdown_request: bool,
    /// The file names seen in the child's output, oldest first.
    pub active_files: Seq<Seq<char>>,
}

impl SessionState {
    /// The screen is well formed and no file name is listed twice.
    pub open spec fn wf(self) -> bool {
        &&& self.screen.wf()
        &&& forall|i: int, j: int|
            0 <= i < j < self.active_files.len() ==> self.active_files[i] != self.active_files[j]
    }

    /// A new session: a fresh screen, a live child, nothing owed.
    pub open spec fn fresh(cols: int, rows: int) -> SessionState {
        SessionState {
            screen: Screen::fresh(cols, rows),
            alive: true,
            outbox: Seq::empty(),
            resize_request: None,
            shutdown_request: false,
            active_files: Seq::empty(),
        }
    }

    /// Bytes for the child: queued while it lives, dropped after.
    pub open spec fn write(self, data: Seq<u8>) -> SessionState {
        if self.alive {
            SessionState { outbox: self.outbox + data, ..self }
        } else {
            self
        }
    }

    /// A key for the child: its bytes are written.
    pub open spec fn send_key(self, key: KeyEvent) -> SessionState {
        self.write(key_bytes(key))
    }

    /// A new size: the grid takes it, and a live session asks its
    /// pseudo-terminal to follow. The size it has changes nothing.
    pub open spec fn resize(self, cols: u16, rows: u16) -> SessionState {
        if cols == self.screen.grid.cols && rows == self.screen.grid.rows {
            self
        } else {
            SessionState {
                screen: Screen { grid: self.screen.grid.resize(cols as int, rows as int), ..self.screen },
                resize_request: if self.alive {
                    Some((cols, rows))
                } else {
                    self.resize_request
                },
                ..self
            }
        }
    }

    /// The session is told to end: it is dead from now on and asks for its
    /// pseudo-terminal to be closed.
    pub open spec fn shutdown(self) -> SessionState {
        SessionState { alive: false, shutdown_request: true, ..self }
    }

    /// The child's exit is seen: the session dies and shows the banner.
    pub open spec fn die(self) -> SessionState {
        SessionState {
            alive: false,
            screen: Screen { grid: with_exit_banner(self.screen.grid), ..self.screen },
            ..self
        }
    }

    /// A chunk of the child's output goes through the parser, and the file
    /// names that the chunk mentions join the list.
    pub open spec fn absorb(self, data: Seq<u8>) -> SessionState {
        SessionState { screen: self.screen.feed(data), ..self }.note_files(
            ascii_texts(mentions(data)),
        )
    }

    /// The file names join the list in their order, each unless it is there.
    pub open spec fn note_files(self, names: Seq<Seq<char>>) -> SessionState
        decreases names.len(),
    {
        if names.len() == 0 {
            self
        } else {
            self.note_files(names.drop_last()).note_file(names.last())
        }
    }

    /// A file name seen in the output joins the list, unless it is there.
    pub open spec fn note_file(self, name: Seq<char>) -> SessionState {
        if self.active_files.contains(name) {
            self
        } else {
            SessionState { active_files: self.active_files.push(name), ..self }
        }
    }

    /// The start of an update pass with a budget of `budget` polls: a dead
    /// session and an empty budget end it at once.
    pub open spec fn begin_update(self, budget: usize) -> UpdateStep {
        if !self.alive || budget == 0 {
            UpdateStep::Done(UpdateStatus::NoChange)
        } else {
            UpdateStep::Poll(UpdateProgress { polls_left: budget, damaged: false })
        }
    }

    /// The session after one poll of an update pass. A dead session takes
    /// nothing in.
    pub open spec fn after_poll(self, event: PollEvent) -> SessionState {
        if !self.alive {
            self
        } else {
            match event {
                PollEvent::Bytes(data) => self.absorb(data@),
                PollEvent::WouldBlock => self,
                PollEvent::Eof => self.die(),
            }
        }
    }

    /// What the pass asks for after one poll: bytes lead to another poll
    /// while the budget lasts; nothing pending ends the pass, damaged if any
    /// byte was processed; the child's exit ends it as died.
    pub open spec fn next_step(self, progress: UpdateProgress, event: PollEvent) -> UpdateStep {
        if !self.alive {
            UpdateStep::Done(UpdateStatus::NoChange)
        } else {
            match event {
                PollEvent::Bytes(data) => {
                    let damaged = progress.damaged || data@.len() > 0;
                    if progress.polls_left <= 1 {
                        UpdateStep::Done(status_of(damaged))
                    } else {
                        UpdateStep::Poll(
                            UpdateProgress {
                                polls_left: (progress.polls_left - 1) as usize,
                                damaged,
                            },
                        )
                    }
                },
                PollEvent::WouldBlock => UpdateStep::Done(status_of(progress.damaged)),
                PollEvent::Eof => UpdateStep::Done(UpdateStatus::Died),
            }
        }
    }
}

/// `String::push` of std: the character is appended to the string.
pub assume_specification[ String::push ](s: &mut String, ch: char)
    ensures
        final(s)@ == old(s)@.push(ch),
;

/// The text that a session shows once its child has exited.
pub fn exit_banner() -> (text: &'static str)
    ensures
        text@ == exit_banner_text(),
{
    "[Process exited — press Ctrl+W to close]"
}

/// How often an update pass may poll: ten times where input has just been
/// written to the child, once where it has not.
pub open spec fn poll_budget_of(wrote_input: bool) -> usize {
    if wrote_input {
        10
    } else {
        1
    }
}

/// How often an update pass may poll.
pub fn poll_budget(wrote_input: bool) -> (budget: usize)
    ensures
        budget == poll_budget_of(wrote_input),
{
    if wrote_input {
        10
    } else {
        1
    }
}

/// What a renderer needs of a session for one frame: the cells row by row,
/// the cursor as (column, row), and whether the child is still thought to run.
#[derive(Debug)]
pub struct Snapshot {
    pub cells: Vec<Vec<Cell>>,
    pub cursor: (u16, u16),
    pub alive: bool,
}

/// A terminal session: the emulated screen of one child process, and what
/// the session wants done with the child's pseudo-terminal.
pub struct TerminalEmulator {
    grid: Grid,
    parser: Parser,
    alive: bool,
    outbox: Vec<u8>,
    resize_request: Option<(u16, u16)>,
    shutdown_request: bool,
    active_files: Vec<String>,
}

impl View for TerminalEmulator {
    type V = SessionState;

    closed spec fn view(&self) -> SessionState {
        SessionState {
            screen: screen_of(&self.parser, &self.grid),
            alive: self.alive,
            outbox: self.outbox@,
            resize_request: self.resize_request,
            shutdown_request: self.shutdown_request,
            active_files: Seq::new(self.active_files.len() as nat, |i: int| self.active_files[i]@),
        }
    }
}

impl TerminalEmulator {
    /// The invariant of a session: its model is well formed.
    pub open spec fn wf(&self) -> bool {
        self@.wf()
    }

    /// A session with a fresh screen of `size`, as (columns, rows).
    pub fn new(size: (u16, u16)) -> (session: TerminalEmulator)
        requires
            size.0 > 0,
            size.1 > 0,
        ensures
            session.wf(),
            session@ == SessionState::fresh(size.0 as int, size.1 as int),
    {
        let session = TerminalEmulator {
            grid: Grid::new(size.0, size.1),
            parser: Parser::new(),
            alive: true,
            outbox: Vec::new(),
            resize_request: None,
            shutdown_request: false,
            active_files: Vec::new(),
        };
        assert(session@.active_files =~= Seq::<Seq<char>>::empty());
        session
    }

    /// Whether the child is still thought to run.
    pub fn is_alive(&self) -> (alive: bool)
        ensures
            alive == self@.alive,
    {
        self.alive
    }

    /// The screen.
    pub fn grid(&self) -> (grid: &Grid)
        ensures
            grid@ == self@.screen.grid,
            self.wf() ==> grid.wf(),
    {
        &self.grid
    }

    /// The size of the screen, as (columns, rows).
    pub fn size(&self) -> (size: (u16, u16))
        ensures
            size.0 == self@.screen.grid.cols,
            size.1 == self@.screen.grid.rows,
    {
        (self.grid.cols(), self.grid.rows())
    }

    /// Queues `data` for the child; a dead session drops it.
    pub fn write(&mut self, data: &[u8])
        ensures
            final(self)@ == old(self)@.write(data@),
            old(self).wf() ==> final(self).wf(),
    {
        if self.alive {
            let mut i: usize = 0;
            while i < data.len()
                invariant
                    i <= data.len(),
                    self.outbox@ == old(self).outbox@ + data@.take(i as int),
                    self.grid == old(self).grid,
                    self.parser == old(self).parser,
                    self.alive == old(self).alive,
                    self.resize_request == old(self).resize_request,
                    self.shutdown_request == old(self).shutdown_request,
                    self.active_files == old(self).active_files,
                decreases data.len() - i,
            {
                self.outbox.push(data[i]);
                assert(data@.take(i + 1) =~= data@.take(i as int).push(data@[i as int]));
                i += 1;
            }
            assert(data@.take(data.len() as int) =~= data@);
        }
    }

    /// Queues the bytes of `key` for the child; a dead session drops them.
    pub fn handle_key_event(&mut self, key: KeyEvent)
        ensures
            final(self)@ == old(self)@.send_key(key),
            old(self).wf() ==> final(self).wf(),
    {
        if self.alive {
            push_key(&mut self.outbox, key);
        }
    }

    /// Hands over the bytes owed to the pseudo-terminal and forgets them.
    pub fn take_output(&mut self) -> (bytes: Vec<u8>)
        ensures
            bytes@ == old(self)@.outbox,
            final(self)@ == (SessionState { outbox: Seq::empty(), ..old(self)@ }),
            old(self).wf() ==> final(self).wf(),
    {
        let mut bytes: Vec<u8> = Vec::new();
        core::mem::swap(&mut bytes, &mut self.outbox);
        bytes
    }

    /// Hands over the size that the pseudo-terminal is to take, if any, and
    /// forgets the request.
    pub fn take_resize_request(&mut self) -> (request: Option<(u16, u16)>)
        ensures
            request == old(self)@.resize_request,
            final(self)@ == (SessionState { resize_request: None, ..old(self)@ }),
            old(self).wf() ==> final(self).wf(),
    {
        let request = self.resize_request;
        self.resize_request = None;
        request
    }

    /// Says whether the pseudo-terminal is to be closed, and forgets the request.
    pub fn take_shutdown_request(&mut self) -> (request: bool)
        ensures
            request == old(self)@.shutdown_request,
            final(self)@ == (SessionState { shutdown_request: false, ..old(self)@ }),
            old(self).wf() ==> final(self).wf(),
    {
        let request = self.shutdown_request;
        self.shutdown_request = false;
        request
    }

    /// Gives the screen a new size, as (columns, rows).
    pub fn resize(&mut self, size: (u16, u16))
        requires
            old(self).wf(),
            size.0 > 0,
            size.1 > 0,
        ensures
            final(self).wf(),
            final(self)@ == old(self)@.resize(size.0, size.1),
    {
        if size.0 == self.grid.cols() && size.1 == self.grid.rows() {
            return ;
        }
        self.grid.resize(size.0, size.1);
        if self.alive {
            self.resize_request = Some(size);
        }
    }

    /// Ends the session at the owner's wish.
    pub fn shutdown(&mut self)
        ensures
            final(self)@ == old(self)@.shutdown(),
            old(self).wf() ==> final(self).wf(),
    {
        self.alive = false;
        self.shutdown_request = true;
    }

    /// Starts an update pass that may poll `budget` times.
    pub fn update(&self, budget: usize) -> (step: UpdateStep)
        ensures
            step == self@.begin_update(budget),
    {
        if !self.alive || budget == 0 {
            UpdateStep::Done(UpdateStatus::NoChange)
        } else {
            UpdateStep::Poll(UpdateProgress { polls_left: budget, damaged: false })
        }
    }

    fn show_exit_banner(&mut self)
        requires
            old(self).wf(),
        ensures
            final(self).wf(),
            final(self)@ == (SessionState {
                screen: Screen {
                    grid: with_exit_banner(old(self)@.screen.grid),
                    ..old(self)@.screen
                },
                ..old(self)@
            }),
    {
        let text = exit_banner();
        let row = self.grid.cursor().1;
        self.grid.write_row(row, text, Colour::BrightWhite, Colour::Red);
    }

    /// Takes the result of one poll of an update pass, and says what the
    /// pass asks for next.
    pub fn on_poll(&mut self, progress: UpdateProgress, event: PollEvent) -> (step: UpdateStep)
        requires
            old(self).wf(),
        ensures
            final(self).wf(),
            final(self)@ == old(self)@.after_poll(event),
            step == old(self)@.next_step(progress, event),
    {
        if !self.alive {
            return UpdateStep::Done(UpdateStatus::NoChange);
        }
        match event {
            PollEvent::Bytes(data) => {
                self.parser.feed(&mut self.grid, data.as_slice());
                let names = scan_mentions(data.as_slice());
                let ghost fed = self@;
                let ghost all = ascii_texts(mentions(data@));
                let mut i: usize = 0;
                while i < names.len()
                    invariant
                        i <= names@.len(),
                        names@.len() == all.len(),
                        forall|k: int| 0 <= k < names@.len() ==> (#[trigger] names@[k])@ == all[k],
                        self.wf(),
                        self@ == fed.note_files(all.take(i as int)),
                    decreases names@.len() - i,
                {
                    assert(all.take(i + 1).drop_last() =~= all.take(i as int));
                    self.note_active_file(names[i].clone());
                    i += 1;
                }
                assert(all.take(names@.len() as int) =~= all);
                let damaged = progress.damaged || data.len() > 0;
                if progress.polls_left <= 1 {
                    UpdateStep::Done(
                        if damaged {
                            UpdateStatus::Damaged
                        } else {
                            UpdateStatus::NoChange
                        },
                    )
                } else {
                    UpdateStep::Poll(
                        UpdateProgress { polls_left: progress.polls_left - 1, damaged },
                    )
                }
            },
            PollEvent::WouldBlock => UpdateStep::Done(
                if progress.damaged {
                    UpdateStatus::Damaged
                } else {
                    UpdateStatus::NoChange
                },
            ),
            PollEvent::Eof => {
                self.alive = false;
                self.show_exit_banner();
                UpdateStep::Done(UpdateStatus::Died)
            },
        }
    }

    /// What a renderer needs of the session for one frame.
    pub fn snapshot(&self) -> (frame: Snapshot)
        requires
            self.wf(),
        ensures
            frame.cells@.len() == self@.screen.grid.rows,
            forall|r: int|
                0 <= r < frame.cells@.len() ==> (#[trigger] frame.cells@[r])@
                    == self@.screen.grid.cells[r],
            frame.cursor.0 == self@.screen.grid.cursor_col,
            frame.cursor.1 == self@.screen.grid.cursor_row,
            frame.alive == self@.alive,
    {
        let mut cells: Vec<Vec<Cell>> = Vec::new();
        let mut r: u16 = 0;
        while r < self.grid.rows()
            invariant
                r <= self@.screen.grid.rows,
                self.wf(),
                cells@.len() == r,
                forall|i: int|
                    0 <= i < r ==> (#[trigger] cells@[i])@ == self@.screen.grid.cells[i],
            decreases self@.screen.grid.rows - r,
        {
            cells.push(self.grid.row_cells(r));
            r += 1;
        }
        Snapshot { cells, cursor: self.grid.cursor(), alive: self.alive }
    }

    /// The rows of the screen as text, top to bottom.
    pub fn get_visible_content(&self) -> (lines: Vec<String>)
        requires
            self.wf(),
        ensures
            lines@.len() == self@.screen.grid.rows,
            forall|r: int|
                0 <= r < lines@.len() ==> (#[trigger] lines@[r])@ == self@.screen.grid.row_text(r),
    {
        let mut lines: Vec<String> = Vec::new();
        let mut r: u16 = 0;
        while r < self.grid.rows()
            invariant
                r <= self@.screen.grid.rows,
                self.wf(),
                lines@.len() == r,
                forall|i: int|
                    0 <= i < r ==> (#[trigger] lines@[i])@ == self@.screen.grid.row_text(i),
            decreases self@.screen.grid.rows - r,
        {
            let chars = self.grid.row_chars(r);
            let mut line = String::new();
            let mut c: usize = 0;
            while c < chars.len()
                invariant
                    c <= chars.len(),
                    line@ == chars@.take(c as int),
                decreases chars.len() - c,
            {
                line.push(chars[c]);
                assert(chars@.take(c + 1) =~= chars@.take(c as int).push(chars@[c as int]));
                c += 1;
            }
            assert(chars@.take(chars.len() as int) =~= chars@);
            lines.push(line);
            r += 1;
        }
        lines
    }

    /// The colours of the screen, row by row, as (foreground, background).
    pub fn get_display_colors(&self) -> (colours: Vec<Vec<(Colour, Colour)>>)
        requires
            self.wf(),
        ensures
            colours@.len() == self@.screen.grid.rows,
            forall|r: int|
                0 <= r < colours@.len() ==> (#[trigger] colours@[r])@
                    == self@.screen.grid.row_colours(r),
    {
        let mut colours: Vec<Vec<(Colour, Colour)>> = Vec::new();
        let mut r: u16 = 0;
        while r < self.grid.rows()
            invariant
                r <= self@.screen.grid.rows,
                self.wf(),
                colours@.len() == r,
                forall|i: int|
                    0 <= i < r ==> (#[trigger] colours@[i])@ == self@.screen.grid.row_colours(i),
            decreases self@.screen.grid.rows - r,
        {
            colours.push(self.grid.row_colours(r));
            r += 1;
        }
        colours
    }

    /// The cursor as (column, row).
    pub fn get_cursor_position(&self) -> (at: (u16, u16))
        ensures
            at.0 == self@.screen.grid.cursor_col,
            at.1 == self@.screen.grid.cursor_row,
    {
        self.grid.cursor()
    }

    /// The file names seen in the child's output, oldest first.
    pub fn get_active_files(&self) -> (files: &Vec<String>)
        ensures
            files@.len() == self@.active_files.len(),
            forall|i: int| 0 <= i < files@.len() ==> (#[trigger] files@[i])@ == self@.active_files[i],
    {
        &self.active_files
    }

    /// Adds `name` to the file names seen, unless the list holds it.
    pub fn note_active_file(&mut self, name: String)
        requires
            old(self).wf(),
        ensures
            final(self).wf(),
            final(self)@ == old(self)@.note_file(name@),
    {
        let mut i: usize = 0;
        while i < self.active_files.len()
            invariant
                i <= self.active_files.len(),
                *self == *old(self),
                old(self).wf(),
                forall|j: int| 0 <= j < i ==> self@.active_files[j] != name@,
            decreases self.active_files.len() - i,
        {
            if self.active_files[i] == name {
                assert(self@.active_files[i as int] == name@);
                return ;
            }
            i += 1;
        }
        self.active_files.push(name);
        assert(self@.active_files =~= old(self)@.active_files.push(name@));
    }
}

/// File names that join the list change nothing else of the session.
pub proof fn lemma_noted_files_leave_the_screen(s: SessionState, names: Seq<Seq<char>>)
    ensures
        s.note_files(names) == (SessionState {
            active_files: s.note_files(names).active_files,
            ..s
        }),
    decreases names.len(),
{
    if names.len() > 0 {
        lemma_noted_files_leave_the_screen(s, names.drop_last());
    }
}

/// The output that a live session takes in at a poll goes through its
/// parser, byte for byte: the screen after the poll is the screen before it
/// fed with the bytes, and the session is as alive as before.
pub proof fn lemma_polled_output_is_fed(s: SessionState, data: Vec<u8>)
    requires
        s.alive,
    ensures
        s.after_poll(PollEvent::Bytes(data)).screen == s.screen.feed(data@),
        s.after_poll(PollEvent::Bytes(data)).alive,
        s.after_poll(PollEvent::Bytes(data)).outbox == s.outbox,
{
    lemma_noted_files_leave_the_screen(
        SessionState { screen: s.screen.feed(data@), ..s },
        ascii_texts(mentions(data@)),
    );
}

/// An update pass on a dead session is over at once and changes nothing,
/// however often it is made and whatever a poll would give.
pub proof fn lemma_dead_session_update_is_idempotent(
    s: SessionState,
    budget: usize,
    progress: UpdateProgress,
    event: PollEvent,
)
    requires
        !s.alive,
    ensures
        s.begin_update(budget) == UpdateStep::Done(UpdateStatus::NoChange),
        s.after_poll(event) == s,
        s.next_step(progress, event) == UpdateStep::Done(UpdateStatus::NoChange),
        !s.after_poll(event).alive,
{
}

/// A dead session stays dead: no poll, write, key, resize or shutdown
/// revives it, and what is written or typed to it changes nothing.
pub proof fn lemma_dead_session_stays_dead(
    s: SessionState,
    event: PollEvent,
    data: Seq<u8>,
    key: KeyEvent,
    cols: u16,
    rows: u16,
)
    requires
        !s.alive,
    ensures
        !s.after_poll(event).alive,
        s.write(data) == s,
        s.send_key(key) == s,
        !s.resize(cols, rows).alive,
        !s.shutdown().alive,
{
}

/// Two keys sent one after the other leave in the outbox what was there,
/// then the bytes of the first key, then those of the second.
pub proof fn lemma_send_key_keeps_order(s: SessionState, first: KeyEvent, second: KeyEvent)
    requires
        s.alive,
    ensures
        s.send_key(first).send_key(second).outbox == s.outbox + crate::terminal::keys::keys_bytes(
            seq![first, second],
        ),
        s.send_key(first).send_key(second) == s.write(
            crate::terminal::keys::keys_bytes(seq![first, second]),
        ),
{
    crate::terminal::keys::lemma_two_keys(first, second);
    assert((s.outbox + key_bytes(first)) + key_bytes(second) =~= s.outbox + (key_bytes(first)
        + key_bytes(second)));
}

} // verus!
