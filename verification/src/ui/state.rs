//! The input mode of the application, and what the interface keeps between
//! two frames: the command line, the panels that are shown, and the file
//! explorer.

use vstd::prelude::*;
use vstd::string::*;
use crate::layout::geometry::Rect;

verus! {

/// The mode in which the application takes its input.
#[derive(Clone, Copy, Debug, PartialEq, Eq, Structural)]
pub enum AppState {
    Normal,
    Insert,
    Command,
    Visual,
}

/// One line of the file explorer.
#[derive(Debug)]
pub struct FileTreeItem {
    pub name: String,
    pub is_dir: bool,
    pub is_expanded: bool,
    pub depth: usize,
    pub path: String,
}

/// One entry of a directory, as the file system gives it.
#[derive(Debug)]
pub struct DirectoryEntry {
    pub name: String,
    pub is_dir: bool,
    pub path: String,
}

/// What the explorer asks for after a key.
#[derive(Debug)]
pub enum ExplorerRequest {
    /// Nothing.
    Nothing,
    /// The file at this path is to be opened.
    OpenFile(String),
    /// The directory at `index`, with this path, was opened: its entries are
    /// to be read and handed to `insert_directory_contents`.
    LoadDirectory { index: usize, path: String },
}

/// The model of one line of the explorer.
pub struct ItemView {
    pub name: Seq<char>,
    pub is_dir: bool,
    pub is_expanded: bool,
    pub depth: int,
    pub path: Seq<char>,
}

/// The model of one entry of a directory.
pub struct EntryView {
    pub name: Seq<char>,
    pub is_dir: bool,
    pub path: Seq<char>,
}

/// The model of a request of the explorer.
pub enum RequestView {
    Nothing,
    OpenFile(Seq<char>),
    LoadDirectory { index: int, path: Seq<char> },
}

impl View for FileTreeItem {
    type V = ItemView;

    open spec fn view(&self) -> ItemView {
        ItemView {
            name: self.name@,
            is_dir: self.is_dir,
            is_expanded: self.is_expanded,
            depth: self.depth as int,
            path: self.path@,
        }
    }
}

impl View for DirectoryEntry {
    type V = EntryView;

    open spec fn view(&self) -> EntryView {
        EntryView { name: self.name@, is_dir: self.is_dir, path: self.path@ }
    }
}

impl View for ExplorerRequest {
    type V = RequestView;

    open spec fn view(&self) -> RequestView {
        match *self {
            ExplorerRequest::Nothing => RequestView::Nothing,
            ExplorerRequest::OpenFile(path) => RequestView::OpenFile(path@),
            ExplorerRequest::LoadDirectory { index, path } => RequestView::LoadDirectory {
                index: index as int,
                path: path@,
            },
        }
    }
}

/// The models of the lines of the explorer, in order.
pub open spec fn items(list: Seq<FileTreeItem>) -> Seq<ItemView> {
    Seq::new(list.len(), |i: int| list[i]@)
}

/// The models of the entries of a directory, in order.
pub open spec fn entries(list: Seq<DirectoryEntry>) -> Seq<EntryView> {
    Seq::new(list.len(), |i: int| list[i]@)
}

/// Whether an entry is hidden: its name begins with a dot.
pub open spec fn is_hidden(name: Seq<char>) -> bool {
    name.len() > 0 && name[0] == '.'
}

/// The line that stands for `entry` below a directory at depth `depth`: a
/// directory is closed and has a slash after its name.
pub open spec fn line_of(entry: EntryView, depth: int) -> ItemView {
    ItemView {
        name: if entry.is_dir {
            entry.name.push('/')
        } else {
            entry.name
        },
        is_dir: entry.is_dir,
        is_expanded: false,
        depth: depth + 1,
        path: entry.path,
    }
}

/// The lines of the entries that are not hidden, in the order of the entries.
pub open spec fn lines_of(list: Seq<EntryView>, depth: int) -> Seq<ItemView>
    decreases list.len(),
{
    if list.len() == 0 {
        Seq::empty()
    } else if is_hidden(list.last().name) {
        lines_of(list.drop_last(), depth)
    } else {
        lines_of(list.drop_last(), depth).push(line_of(list.last(), depth))
    }
}

/// The index at which the lines below a directory end: the first index
/// from `from` on whose line is not deeper than `depth`, or the number of lines.
pub open spec fn branch_end(tree: Seq<ItemView>, from: int, depth: int) -> int
    decreases tree.len() - from,
{
    if from < 0 || from >= tree.len() || tree[from].depth <= depth {
        from
    } else {
        branch_end(tree, from + 1, depth)
    }
}

/// The lines without those that stand below the directory at `index`.
pub open spec fn collapsed(tree: Seq<ItemView>, index: int) -> Seq<ItemView> {
    tree.subrange(0, index + 1) + tree.subrange(
        branch_end(tree, index + 1, tree[index].depth),
        tree.len() as int,
    )
}

/// The lines with `lines` placed after the line at `index`.
pub open spec fn with_lines(tree: Seq<ItemView>, index: int, lines: Seq<ItemView>) -> Seq<ItemView> {
    tree.subrange(0, index + 1) + lines + tree.subrange(index + 1, tree.len() as int)
}

/// The model of the interface.
pub struct UiState {
    pub command: Seq<char>,
    pub error: Option<Seq<char>>,
    pub show_help: bool,
    pub show_git_panel: bool,
    pub show_file_explorer: bool,
    /// The index of the line that is selected in the explorer.
    pub selected: int,
    /// The lines of the explorer.
    pub tree: Seq<ItemView>,
    /// Where the explorer was drawn last.
    pub area: Option<Rect>,
}

/// The line of the root directory: open, at depth zero.
pub open spec fn root_line() -> ItemView {
    ItemView { name: "./"@, is_dir: true, is_expanded: true, depth: 0, path: "."@ }
}

impl UiState {
    /// The interface at its start: the explorer is shown, with the root
    /// directory alone; help and the git panel are hidden.
    pub open spec fn fresh() -> UiState {
        UiState {
            command: Seq::empty(),
            error: None,
            show_help: false,
            show_git_panel: false,
            show_file_explorer: true,
            selected: 0,
            tree: seq![root_line()],
            area: None,
        }
    }

    /// The selection one line up, unless it is on the first line.
    pub open spec fn moved_up(self) -> UiState {
        if self.selected > 0 {
            UiState { selected: self.selected - 1, ..self }
        } else {
            self
        }
    }

    /// The selection one line down, unless it is on the last line.
    pub open spec fn moved_down(self) -> UiState {
        if self.selected + 1 < self.tree.len() {
            UiState { selected: self.selected + 1, ..self }
        } else {
            self
        }
    }

    /// The lines with the directory at `index` marked open or closed.
    pub open spec fn marked(self, index: int, open: bool) -> Seq<ItemView> {
        self.tree.update(index, ItemView { is_expanded: open, ..self.tree[index] })
    }

    /// The interface after the selected line was opened or closed: a
    /// directory that is closed loses the lines below it, a directory that
    /// is opened is marked so, and anything else stays.
    pub open spec fn toggled(self) -> UiState {
        if 0 <= self.selected < self.tree.len() && self.tree[self.selected].is_dir {
            if self.tree[self.selected].is_expanded {
                UiState { tree: collapsed(self.marked(self.selected, false), self.selected), ..self }
            } else {
                UiState { tree: self.marked(self.selected, true), ..self }
            }
        } else {
            self
        }
    }

    /// What opening or closing the selected line asks for: the entries of
    /// a directory that was opened.
    pub open spec fn toggle_request(self) -> RequestView {
        if 0 <= self.selected < self.tree.len() && self.tree[self.selected].is_dir
            && !self.tree[self.selected].is_expanded {
            RequestView::LoadDirectory {
                index: self.selected,
                path: self.tree[self.selected].path,
            }
        } else {
            RequestView::Nothing
        }
    }

    /// What Enter on the selected line asks for: a file is to be opened, a
    /// directory is opened or closed.
    pub open spec fn open_request(self) -> RequestView {
        if 0 <= self.selected < self.tree.len() && !self.tree[self.selected].is_dir {
            RequestView::OpenFile(self.tree[self.selected].path)
        } else {
            self.toggle_request()
        }
    }

    /// The interface after Enter on the selected line.
    pub open spec fn opened(self) -> UiState {
        if 0 <= self.selected < self.tree.len() && !self.tree[self.selected].is_dir {
            self
        } else {
            self.toggled()
        }
    }

    /// The interface after a click at row `y`: the line drawn there is
    /// selected, if the explorer was drawn and has a line there. The first
    /// line stands one row below the top of the explorer.
    pub open spec fn clicked(self, y: int) -> UiState {
        match self.area {
            Some(area) => {
                let line = vstd::math::max(0, y - (area.y + 1));
                if line < self.tree.len() {
                    UiState { selected: line, ..self }
                } else {
                    self
                }
            },
            None => self,
        }
    }
}

/// `String::pop` of std: the last character leaves the string and is
/// handed out; an empty string stays empty and hands out nothing.
pub assume_specification[ String::pop ](s: &mut String) -> (last: Option<char>)
    ensures
        old(s)@.len() == 0 ==> last is None && final(s)@ == old(s)@,
        old(s)@.len() > 0 ==> last == Some(old(s)@.last()) && final(s)@ == old(s)@.drop_last(),
;

/// The state of the interface.
pub struct Ui {
    command_buffer: String,
    error_message: Option<String>,
    show_help: bool,
    show_git_panel: bool,
    show_file_explorer: bool,
    file_explorer_selected: usize,
    file_tree: Vec<FileTreeItem>,
    file_explorer_area: Option<Rect>,
}

impl View for Ui {
    type V = UiState;

    closed spec fn view(&self) -> UiState {
        UiState {
            command: self.command_buffer@,
            error: match self.error_message {
                Some(text) => Some(text@),
                None => None,
            },
            show_help: self.show_help,
            show_git_panel: self.show_git_panel,
            show_file_explorer: self.show_file_explorer,
            selected: self.file_explorer_selected as int,
            tree: items(self.file_tree@),
            area: self.file_explorer_area,
        }
    }
}

/// The line that stands for `entry` below a directory at depth `depth`.
fn line_for(entry: &DirectoryEntry, depth: usize) -> (line: FileTreeItem)
    requires
        depth < usize::MAX,
    ensures
        line@ == line_of(entry@, depth as int),
{
    let mut name = entry.name.clone();
    if entry.is_dir {
        name.push('/');
    }
    FileTreeItem {
        name,
        is_dir: entry.is_dir,
        is_expanded: false,
        depth: depth + 1,
        path: entry.path.clone(),
    }
}

/// Whether a name begins with a dot.
fn hidden(name: &String) -> (yes: bool)
    ensures
        yes == is_hidden(name@),
{
    let text = name.as_str();
    if text.unicode_len() == 0 {
        false
    } else {
        text.get_char(0) == '.'
    }
}

impl Ui {
    /// The interface at its start.
    pub fn new() -> (ui: Ui)
        ensures
            ui@ == UiState::fresh(),
    {
        let mut file_tree: Vec<FileTreeItem> = Vec::new();
        file_tree.push(
            FileTreeItem {
                name: "./".to_owned(),
                is_dir: true,
                is_expanded: true,
                depth: 0,
                path: ".".to_owned(),
            },
        );
        let ui = Ui {
            command_buffer: String::new(),
            error_message: None,
            show_help: false,
            show_git_panel: false,
            show_file_explorer: true,
            file_explorer_selected: 0,
            file_tree,
            file_explorer_area: None,
        };
        assert(ui@.tree =~= seq![root_line()]);
        ui
    }

    /// Adds `c` to the command line.
    pub fn command_push(&mut self, c: char)
        ensures
            final(self)@ == (UiState { command: old(self)@.command.push(c), ..old(self)@ }),
    {
        self.command_buffer.push(c);
    }

    /// Takes the last character off the command line, if it has one.
    pub fn command_backspace(&mut self)
        ensures
            final(self)@ == (UiState {
                command: if old(self)@.command.len() > 0 {
                    old(self)@.command.drop_last()
                } else {
                    old(self)@.command
                },
                ..old(self)@
            }),
    {
        let _ = self.command_buffer.pop();
    }

    /// The command line.
    pub fn get_command(&self) -> (command: String)
        ensures
            command@ == self@.command,
    {
        self.command_buffer.clone()
    }

    /// Empties the command line.
    pub fn clear_command(&mut self)
        ensures
            final(self)@ == (UiState { command: Seq::empty(), ..old(self)@ }),
    {
        self.command_buffer = String::new();
    }

    /// Shows `message` as an error.
    pub fn show_error(&mut self, message: &str)
        ensures
            final(self)@ == (UiState { error: Some(message@), ..old(self)@ }),
    {
        self.error_message = Some(message.to_owned());
    }

    /// Shows no error.
    pub fn clear_error(&mut self)
        ensures
            final(self)@ == (UiState { error: None, ..old(self)@ }),
    {
        self.error_message = None;
    }

    /// The error that is shown.
    pub fn error(&self) -> (message: &Option<String>)
        ensures
            match *message {
                Some(text) => self@.error == Some(text@),
                None => self@.error is None,
            },
    {
        &self.error_message
    }

    /// Shows the help if it is hidden, and hides it if not.
    pub fn toggle_help(&mut self)
        ensures
            final(self)@ == (UiState { show_help: !old(self)@.show_help, ..old(self)@ }),
    {
        self.show_help = !self.show_help;
    }

    /// Whether the help is shown.
    pub fn is_help_visible(&self) -> (shown: bool)
        ensures
            shown == self@.show_help,
    {
        self.show_help
    }

    /// Shows the git panel if it is hidden, and hides it if not.
    pub fn toggle_git_panel(&mut self)
        ensures
            final(self)@ == (UiState { show_git_panel: !old(self)@.show_git_panel, ..old(self)@ }),
    {
        self.show_git_panel = !self.show_git_panel;
    }

    /// Whether the git panel is shown.
    pub fn is_git_panel_visible(&self) -> (shown: bool)
        ensures
            shown == self@.show_git_panel,
    {
        self.show_git_panel
    }

    /// Shows the file explorer if it is hidden, and hides it if not.
    pub fn toggle_file_explorer(&mut self)
        ensures
            final(self)@ == (UiState {
                show_file_explorer: !old(self)@.show_file_explorer,
                ..old(self)@
            }),
    {
        self.show_file_explorer = !self.show_file_explorer;
    }

    /// Whether the file explorer is shown.
    pub fn is_file_explorer_visible(&self) -> (shown: bool)
        ensures
            shown == self@.show_file_explorer,
    {
        self.show_file_explorer
    }

    /// The lines of the explorer.
    pub fn file_tree(&self) -> (tree: &Vec<FileTreeItem>)
        ensures
            items(tree@) == self@.tree,
    {
        &self.file_tree
    }

    /// The index of the line that is selected in the explorer.
    pub fn file_explorer_selected(&self) -> (index: usize)
        ensures
            index == self@.selected,
    {
        self.file_explorer_selected
    }

    /// Moves the selection one line up.
    pub fn file_explorer_move_up(&mut self)
        ensures
            final(self)@ == old(self)@.moved_up(),
    {
        if self.file_explorer_selected > 0 {
            self.file_explorer_selected -= 1;
        }
    }

    /// Moves the selection one line down.
    pub fn file_explorer_move_down(&mut self)
        ensures
            final(self)@ == old(self)@.moved_down(),
    {
        let len = self.file_tree.len();
        assert(self@.tree.len() == len);
        if self.file_explorer_selected < usize::MAX && self.file_explorer_selected + 1 < len {
            self.file_explorer_selected += 1;
        }
    }

    /// Takes away the lines below the directory at `dir_idx`.
    pub fn collapse_directory(&mut self, dir_idx: usize)
        requires
            dir_idx < old(self)@.tree.len(),
        ensures
            final(self)@ == (UiState { tree: collapsed(old(self)@.tree, dir_idx as int), ..old(self)@ }),
    {
        let ghost tree = self@.tree;
        let depth = self.file_tree[dir_idx].depth;
        let ghost mut next: int = dir_idx + 1;
        let len = self.file_tree.len();
        assert(self@.tree.len() == len);
        while dir_idx + 1 < self.file_tree.len() && self.file_tree[dir_idx + 1].depth > depth
            invariant
                dir_idx < tree.len(),
                dir_idx < self@.tree.len(),
                self@.tree.len() == self.file_tree@.len(),
                depth == tree[dir_idx as int].depth,
                dir_idx + 1 <= next <= tree.len(),
                self@.tree == tree.subrange(0, dir_idx + 1) + tree.subrange(next, tree.len() as int),
                branch_end(tree, dir_idx + 1, depth as int) == branch_end(tree, next, depth as int),
                self@.command == old(self)@.command,
                self@.error == old(self)@.error,
                self@.show_help == old(self)@.show_help,
                self@.show_git_panel == old(self)@.show_git_panel,
                self@.show_file_explorer == old(self)@.show_file_explorer,
                self@.selected == old(self)@.selected,
                self@.area == old(self)@.area,
            decreases self.file_tree.len(),
        {
            let ghost before = self@.tree;
            assert(before[dir_idx + 1] == tree[next]);
            self.file_tree.remove(dir_idx + 1);
            proof {
                assert(self@.tree =~= before.remove(dir_idx + 1));
                assert(self@.tree =~= tree.subrange(0, dir_idx + 1) + tree.subrange(
                    next + 1,
                    tree.len() as int,
                ));
                next = next + 1;
            }
        }
        proof {
            if next < tree.len() {
                assert(self@.tree[dir_idx + 1] == tree[next]);
            }
            assert(branch_end(tree, next, depth as int) == next);
        }
    }

    /// Opens or closes the selected line of the explorer, and says what is
    /// then to be read.
    pub fn file_explorer_toggle_expand(&mut self) -> (request: ExplorerRequest)
        ensures
            final(self)@ == old(self)@.toggled(),
            request@ == old(self)@.toggle_request(),
    {
        let at = self.file_explorer_selected;
        if at < self.file_tree.len() && self.file_tree[at].is_dir {
            if self.file_tree[at].is_expanded {
                self.file_tree[at].is_expanded = false;
                assert(self@.tree =~= old(self)@.marked(at as int, false));
                self.collapse_directory(at);
                ExplorerRequest::Nothing
            } else {
                self.file_tree[at].is_expanded = true;
                assert(self@.tree =~= old(self)@.marked(at as int, true));
                ExplorerRequest::LoadDirectory { index: at, path: self.file_tree[at].path.clone() }
            }
        } else {
            ExplorerRequest::Nothing
        }
    }

    /// Places the entries of the directory at `dir_idx` below it: those that
    /// are not hidden, in the order given, one level deeper.
    pub fn insert_directory_contents(&mut self, dir_idx: usize, contents: &Vec<DirectoryEntry>)
        requires
            dir_idx < old(self)@.tree.len(),
            old(self)@.tree[dir_idx as int].depth < usize::MAX,
        ensures
            final(self)@ == (UiState {
                tree: with_lines(
                    old(self)@.tree,
                    dir_idx as int,
                    lines_of(entries(contents@), old(self)@.tree[dir_idx as int].depth),
                ),
                ..old(self)@
            }),
    {
        let ghost tree = self@.tree;
        let depth = self.file_tree[dir_idx].depth;
        let len = self.file_tree.len();
        assert(tree.len() == len);
        let mut placed: usize = 0;
        let mut i: usize = 0;
        while i < contents.len()
            invariant
                i <= contents.len(),
                dir_idx < tree.len(),
                depth == tree[dir_idx as int].depth,
                depth < usize::MAX,
                placed == lines_of(entries(contents@).take(i as int), depth as int).len(),
                placed <= i,
                self.file_tree@.len() == tree.len() + placed,
                self@.tree.len() == self.file_tree@.len(),
                self@.tree == with_lines(
                    tree,
                    dir_idx as int,
                    lines_of(entries(contents@).take(i as int), depth as int),
                ),
                self@.command == old(self)@.command,
                self@.error == old(self)@.error,
                self@.show_help == old(self)@.show_help,
                self@.show_git_panel == old(self)@.show_git_panel,
                self@.show_file_explorer == old(self)@.show_file_explorer,
                self@.selected == old(self)@.selected,
                self@.area == old(self)@.area,
            decreases contents.len() - i,
        {
            let ghost before = self@.tree;
            let ghost lines = lines_of(entries(contents@).take(i as int), depth as int);
            assert(entries(contents@).take(i + 1).drop_last() =~= entries(contents@).take(i as int));
            assert(entries(contents@).take(i + 1).last() == contents@[i as int]@);
            if !hidden(&contents[i].name) {
                let line = line_for(&contents[i], depth);
                let now = self.file_tree.len();
                self.file_tree.insert(dir_idx + 1 + placed, line);
                proof {
                    assert(self@.tree =~= before.insert(dir_idx + 1 + placed, line@));
                    assert(self@.tree =~= with_lines(tree, dir_idx as int, lines.push(line@)));
                }
                placed += 1;
            }
            i += 1;
        }
        assert(entries(contents@).take(contents.len() as int) =~= entries(contents@));
    }

    /// Enter on the selected line of the explorer: says which file is to
    /// be opened, or opens or closes a directory.
    pub fn file_explorer_open(&mut self) -> (request: ExplorerRequest)
        ensures
            final(self)@ == old(self)@.opened(),
            request@ == old(self)@.open_request(),
    {
        let at = self.file_explorer_selected;
        if at < self.file_tree.len() && !self.file_tree[at].is_dir {
            ExplorerRequest::OpenFile(self.file_tree[at].path.clone())
        } else {
            self.file_explorer_toggle_expand()
        }
    }

    /// Where the explorer was drawn last.
    pub fn get_file_explorer_area(&self) -> (area: Option<Rect>)
        ensures
            area == self@.area,
    {
        self.file_explorer_area
    }

    /// Notes where the explorer is drawn.
    pub fn set_file_explorer_area(&mut self, area: Option<Rect>)
        ensures
            final(self)@ == (UiState { area, ..old(self)@ }),
    {
        self.file_explorer_area = area;
    }

    /// A click at column `x` of row `y`: selects the line of the explorer
    /// that is drawn in that row.
    pub fn handle_file_explorer_click(&mut self, x: u16, y: u16)
        ensures
            final(self)@ == old(self)@.clicked(y as int),
    {
        match self.file_explorer_area {
            Some(area) => {
                let top: u32 = area.y as u32 + 1;
                let line: usize = if y as u32 > top { (y as u32 - top) as usize } else { 0 };
                if line < self.file_tree.len() {
                    self.file_explorer_selected = line;
                }
            },
            None => {},
        }
    }
}

} // verus!
