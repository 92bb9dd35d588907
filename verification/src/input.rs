//! What a key and a command line ask of the application.

use vstd::prelude::*;
use vstd::string::*;
use crate::terminal::keys::{KeyCode, KeyEvent};
use crate::terminal::spawn::is_space;
use crate::text::texts;
use crate::workspace::TerminalId;

verus! {

/// The part of the screen that takes the keys.
#[derive(Clone, Copy, Debug, PartialEq, Eq, Structural)]
pub enum FocusArea {
    Terminal,
    FileExplorer,
}

/// What a key asks for.
#[derive(Clone, Copy, Debug, PartialEq, Eq, Structural)]
pub enum Command {
    Nothing,
    Quit,
    NewTerminal,
    CloseActiveTerminal,
    FocusTerminal,
    EnterCommandMode,
    LeaveCommandMode,
    RunCommand,
    CommandBackspace,
    CommandPush(char),
    ToggleHelp,
    ToggleFileExplorer,
    SwitchFocus,
    ToggleGitPanel,
    PreviousTerminal,
    NextTerminal,
    SwitchToTerminal(usize),
    ExplorerUp,
    ExplorerDown,
    ExplorerToggle,
    ExplorerOpen,
    Forward(KeyEvent),
}

/// What a command line asks for.
#[derive(Debug)]
pub enum PaletteCommand {
    /// The line holds no word.
    Empty,
    Quit,
    /// A new session, for the command given if there is one.
    New(Option<String>),
    Worktree,
    Commit,
    /// The layout of the name given; nothing where no name is given.
    Layout(Option<String>),
    Config,
    /// The first word of the line is no command.
    Unknown(String),
}

/// The model of what a command line asks for.
pub enum PaletteView {
    Empty,
    Quit,
    New(Option<Seq<char>>),
    Worktree,
    Commit,
    Layout(Option<Seq<char>>),
    Config,
    Unknown(Seq<char>),
}

impl View for PaletteCommand {
    type V = PaletteView;

    open spec fn view(&self) -> PaletteView {
        match *self {
            PaletteCommand::Empty => PaletteView::Empty,
            PaletteCommand::Quit => PaletteView::Quit,
            PaletteCommand::New(command) => PaletteView::New(
                match command {
                    Some(text) => Some(text@),
                    None => None,
                },
            ),
            PaletteCommand::Worktree => PaletteView::Worktree,
            PaletteCommand::Commit => PaletteView::Commit,
            PaletteCommand::Layout(name) => PaletteView::Layout(
                match name {
                    Some(text) => Some(text@),
                    None => None,
                },
            ),
            PaletteCommand::Config => PaletteView::Config,
            PaletteCommand::Unknown(word) => PaletteView::Unknown(word@),
        }
    }
}

/// What a key asks for while a command line is written.
pub open spec fn command_mode_command(key: KeyEvent) -> Command {
    match key.code {
        KeyCode::Esc => Command::LeaveCommandMode,
        KeyCode::Enter => Command::RunCommand,
        KeyCode::Backspace => Command::CommandBackspace,
        KeyCode::Char(c) => Command::CommandPush(c),
        _ => Command::Nothing,
    }
}

/// What a key asks for when no binding of the application holds it: the
/// explorer takes the arrows and Enter, the terminal takes every key.
pub open spec fn unbound_command(focus: FocusArea, key: KeyEvent) -> Command {
    match focus {
        FocusArea::FileExplorer => match key.code {
            KeyCode::Up => Command::ExplorerUp,
            KeyCode::Down => Command::ExplorerDown,
            KeyCode::Left => Command::ExplorerToggle,
            KeyCode::Right => Command::ExplorerToggle,
            KeyCode::Enter => Command::ExplorerOpen,
            _ => Command::Nothing,
        },
        FocusArea::Terminal => Command::Forward(key),
    }
}

/// What a key with Control alone asks for.
pub open spec fn control_command(focus: FocusArea, key: KeyEvent) -> Command {
    match key.code {
        KeyCode::Char(c) => if c == 'q' || c == 'Q' {
            Command::Quit
        } else if c == 't' || c == 'T' {
            Command::NewTerminal
        } else if c == 'w' || c == 'W' {
            match focus {
                FocusArea::FileExplorer => Command::FocusTerminal,
                FocusArea::Terminal => Command::CloseActiveTerminal,
            }
        } else if c == 'e' {
            Command::ToggleFileExplorer
        } else if c == 'f' {
            Command::SwitchFocus
        } else if c == 'g' {
            Command::ToggleGitPanel
        } else {
            unbound_command(focus, key)
        },
        KeyCode::Tab => Command::NextTerminal,
        _ => unbound_command(focus, key),
    }
}

/// What a key without modifier asks for.
pub open spec fn plain_command(focus: FocusArea, key: KeyEvent) -> Command {
    match key.code {
        KeyCode::Char(c) => if c == ':' {
            Command::EnterCommandMode
        } else if c == '?' {
            Command::ToggleHelp
        } else {
            unbound_command(focus, key)
        },
        KeyCode::F(n) => if 1 <= n <= 10 {
            Command::SwitchToTerminal((n - 1) as usize)
        } else {
            unbound_command(focus, key)
        },
        _ => unbound_command(focus, key),
    }
}

/// What a key asks for: the bindings of the application come first, then
/// the part of the screen that has the focus.
pub open spec fn command_of(command_mode: bool, focus: FocusArea, key: KeyEvent) -> Command {
    if command_mode {
        command_mode_command(key)
    } else if key.modifiers.is_control() {
        control_command(focus, key)
    } else if key.modifiers.is_none() {
        plain_command(focus, key)
    } else if key.modifiers.is_alt() && key.code == KeyCode::Left {
        Command::PreviousTerminal
    } else if key.modifiers.is_alt() && key.code == KeyCode::Right {
        Command::NextTerminal
    } else if key.modifiers.is_shift() && key.code == KeyCode::BackTab {
        Command::PreviousTerminal
    } else {
        unbound_command(focus, key)
    }
}

/// What a key asks for that no binding of the application holds.
fn unbound(focus: FocusArea, key: KeyEvent) -> (command: Command)
    ensures
        command == unbound_command(focus, key),
{
    match focus {
        FocusArea::FileExplorer => match key.code {
            KeyCode::Up => Command::ExplorerUp,
            KeyCode::Down => Command::ExplorerDown,
            KeyCode::Left => Command::ExplorerToggle,
            KeyCode::Right => Command::ExplorerToggle,
            KeyCode::Enter => Command::ExplorerOpen,
            _ => Command::Nothing,
        },
        FocusArea::Terminal => Command::Forward(key),
    }
}

/// Decides what `key` asks for, given whether a command line is being
/// written and which part of the screen has the focus.
pub fn key_command(command_mode: bool, focus: FocusArea, key: KeyEvent) -> (command: Command)
    ensures
        command == command_of(command_mode, focus, key),
{
    let m = key.modifiers;
    if command_mode {
        return match key.code {
            KeyCode::Esc => Command::LeaveCommandMode,
            KeyCode::Enter => Command::RunCommand,
            KeyCode::Backspace => Command::CommandBackspace,
            KeyCode::Char(c) => Command::CommandPush(c),
            _ => Command::Nothing,
        };
    }
    if !m.shift && m.control && !m.alt && !m.extra {
        match key.code {
            KeyCode::Char(c) => {
                if c == 'q' || c == 'Q' {
                    Command::Quit
                } else if c == 't' || c == 'T' {
                    Command::NewTerminal
                } else if c == 'w' || c == 'W' {
                    match focus {
                        FocusArea::FileExplorer => Command::FocusTerminal,
                        FocusArea::Terminal => Command::CloseActiveTerminal,
                    }
                } else if c == 'e' {
                    Command::ToggleFileExplorer
                } else if c == 'f' {
                    Command::SwitchFocus
                } else if c == 'g' {
                    Command::ToggleGitPanel
                } else {
                    unbound(focus, key)
                }
            },
            KeyCode::Tab => Command::NextTerminal,
            _ => unbound(focus, key),
        }
    } else if !m.shift && !m.control && !m.alt && !m.extra {
        match key.code {
            KeyCode::Char(c) => {
                if c == ':' {
                    Command::EnterCommandMode
                } else if c == '?' {
                    Command::ToggleHelp
                } else {
                    unbound(focus, key)
                }
            },
            KeyCode::F(n) => {
                if 1 <= n && n <= 10 {
                    Command::SwitchToTerminal((n - 1) as usize)
                } else {
                    unbound(focus, key)
                }
            },
            _ => unbound(focus, key),
        }
    } else if !m.shift && !m.control && m.alt && !m.extra {
        match key.code {
            KeyCode::Left => Command::PreviousTerminal,
            KeyCode::Right => Command::NextTerminal,
            _ => unbound(focus, key),
        }
    } else if m.shift && !m.control && !m.alt && !m.extra {
        match key.code {
            KeyCode::BackTab => Command::PreviousTerminal,
            _ => unbound(focus, key),
        }
    } else {
        unbound(focus, key)
    }
}

/// What the mouse did.
#[derive(Clone, Copy, Debug, PartialEq, Eq, Structural)]
pub enum MouseKind {
    LeftDown,
    ScrollUp,
    ScrollDown,
    Other,
}

/// What an event of the mouse asks for.
#[derive(Clone, Copy, Debug, PartialEq, Eq, Structural)]
pub struct MouseOutcome {
    /// The session that is to become active.
    pub activate: Option<TerminalId>,
    /// The part of the screen that has the focus from now on.
    pub focus: FocusArea,
    /// Whether the explorer is to take the click.
    pub click_explorer: bool,
    /// What the selection of the explorer is to do.
    pub scroll: Command,
}

/// What an event of the mouse asks for, where `hit` is the session whose
/// rectangle holds the pointer and `in_explorer` says whether the explorer
/// holds it. A click activates the session it hits and gives the terminals
/// the focus; a click on the explorer gives the explorer the focus and is
/// handed on to it. The wheel moves the selection of an explorer that has
/// the focus.
pub open spec fn mouse_outcome_of(
    kind: MouseKind,
    hit: Option<TerminalId>,
    in_explorer: bool,
    focus: FocusArea,
) -> MouseOutcome {
    match kind {
        MouseKind::LeftDown => MouseOutcome {
            activate: hit,
            focus: if in_explorer {
                FocusArea::FileExplorer
            } else if hit is Some {
                FocusArea::Terminal
            } else {
                focus
            },
            click_explorer: in_explorer,
            scroll: Command::Nothing,
        },
        MouseKind::ScrollDown => MouseOutcome {
            activate: None,
            focus,
            click_explorer: false,
            scroll: if focus == FocusArea::FileExplorer {
                Command::ExplorerDown
            } else {
                Command::Nothing
            },
        },
        MouseKind::ScrollUp => MouseOutcome {
            activate: None,
            focus,
            click_explorer: false,
            scroll: if focus == FocusArea::FileExplorer {
                Command::ExplorerUp
            } else {
                Command::Nothing
            },
        },
        MouseKind::Other => MouseOutcome {
            activate: None,
            focus,
            click_explorer: false,
            scroll: Command::Nothing,
        },
    }
}

/// Decides what an event of the mouse asks for.
pub fn mouse_outcome(
    kind: MouseKind,
    hit: Option<TerminalId>,
    in_explorer: bool,
    focus: FocusArea,
) -> (outcome: MouseOutcome)
    ensures
        outcome == mouse_outcome_of(kind, hit, in_explorer, focus),
{
    let explorer_has_focus = match focus {
        FocusArea::FileExplorer => true,
        FocusArea::Terminal => false,
    };
    match kind {
        MouseKind::LeftDown => MouseOutcome {
            activate: hit,
            focus: if in_explorer {
                FocusArea::FileExplorer
            } else if hit.is_some() {
                FocusArea::Terminal
            } else {
                focus
            },
            click_explorer: in_explorer,
            scroll: Command::Nothing,
        },
        MouseKind::ScrollDown => MouseOutcome {
            activate: None,
            focus,
            click_explorer: false,
            scroll: if explorer_has_focus {
                Command::ExplorerDown
            } else {
                Command::Nothing
            },
        },
        MouseKind::ScrollUp => MouseOutcome {
            activate: None,
            focus,
            click_explorer: false,
            scroll: if explorer_has_focus {
                Command::ExplorerUp
            } else {
                Command::Nothing
            },
        },
        MouseKind::Other => MouseOutcome {
            activate: None,
            focus,
            click_explorer: false,
            scroll: Command::Nothing,
        },
    }
}

/// The words of a text: its longest runs of characters that are no white
/// space, in order.
pub open spec fn words(text: Seq<char>) -> Seq<Seq<char>>
    decreases text.len(),
{
    if text.len() == 0 {
        Seq::empty()
    } else {
        let before = words(text.drop_last());
        if is_space(text.last() as int) {
            before
        } else if text.len() >= 2 && !is_space(text[text.len() - 2] as int) && before.len() > 0 {
            before.update(before.len() - 1, before.last().push(text.last()))
        } else {
            before.push(seq![text.last()])
        }
    }
}

/// A text that ends in a character that is no white space has a word.
pub proof fn lemma_words_end(text: Seq<char>)
    requires
        text.len() > 0,
        !is_space(text.last() as int),
    ensures
        words(text).len() > 0,
{
}

/// The words of `text`.
pub fn split_words(text: &str) -> (list: Vec<String>)
    ensures
        texts(list@) == words(text@),
{
    let len = text.unicode_len();
    let mut list: Vec<String> = Vec::new();
    let mut in_word = false;
    let mut i: usize = 0;
    assert(texts(list@) =~= words(text@.take(0)));
    while i < len
        invariant
            i <= len,
            len == text@.len(),
            texts(list@) == words(text@.take(i as int)),
            in_word == (i > 0 && !is_space(text@[i - 1] as int)),
        decreases len - i,
    {
        let ghost before = texts(list@);
        let ghost head = text@.take(i as int);
        let ghost longer = text@.take(i + 1);
        assert(longer.drop_last() =~= head);
        assert(longer.last() == text@[i as int]);
        assert(i > 0 ==> longer[longer.len() - 2] == text@[i - 1]);
        let c = text.get_char(i);
        let v = c as u32;
        if v == 0x20 || (0x09 <= v && v <= 0x0D) {
            in_word = false;
        } else {
            if in_word {
                proof {
                    lemma_words_end(head);
                }
                let last = list.len() - 1;
                list[last].push(c);
                assert(texts(list@) =~= before.update(before.len() - 1, before.last().push(c)));
            } else {
                let mut word = String::new();
                word.push(c);
                assert(word@ =~= seq![c]);
                list.push(word);
                assert(texts(list@) =~= before.push(seq![c]));
                proof {
                    if i > 0 && before.len() > 0 {
                        assert(is_space(text@[i - 1] as int));
                    }
                }
            }
            in_word = true;
        }
        i += 1;
    }
    assert(text@.take(len as int) =~= text@);
    list
}

/// The second word of a line, if it has one.
pub open spec fn argument_of(list: Seq<Seq<char>>) -> Option<Seq<char>> {
    if list.len() > 1 {
        Some(list[1])
    } else {
        None
    }
}

/// What the words of a command line ask for.
pub open spec fn palette_of(list: Seq<Seq<char>>) -> PaletteView {
    if list.len() == 0 {
        PaletteView::Empty
    } else if list[0] == "quit"@ || list[0] == "q"@ {
        PaletteView::Quit
    } else if list[0] == "new"@ {
        PaletteView::New(argument_of(list))
    } else if list[0] == "worktree"@ {
        PaletteView::Worktree
    } else if list[0] == "commit"@ {
        PaletteView::Commit
    } else if list[0] == "layout"@ {
        PaletteView::Layout(argument_of(list))
    } else if list[0] == "config"@ {
        PaletteView::Config
    } else {
        PaletteView::Unknown(list[0])
    }
}

/// Decides what the command line `line` asks for.
pub fn parse_command(line: &str) -> (command: PaletteCommand)
    ensures
        command@ == palette_of(words(line@)),
{
    let list = split_words(line);
    if list.len() == 0 {
        return PaletteCommand::Empty;
    }
    assert(texts(list@)[0] == list@[0]@);
    let argument: Option<String> = if list.len() > 1 {
        assert(texts(list@)[1] == list@[1]@);
        Some(list[1].clone())
    } else {
        None
    };
    let first = &list[0];
    if *first == "quit".to_owned() || *first == "q".to_owned() {
        PaletteCommand::Quit
    } else if *first == "new".to_owned() {
        PaletteCommand::New(argument)
    } else if *first == "worktree".to_owned() {
        PaletteCommand::Worktree
    } else if *first == "commit".to_owned() {
        PaletteCommand::Commit
    } else if *first == "layout".to_owned() {
        PaletteCommand::Layout(argument)
    } else if *first == "config".to_owned() {
        PaletteCommand::Config
    } else {
        PaletteCommand::Unknown(first.clone())
    }
}

} // verus!
