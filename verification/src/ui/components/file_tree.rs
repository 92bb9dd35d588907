//! The state of the file tree: which directories are open and what is selected.

use vstd::prelude::*;
use crate::text::{find_text, first_index, texts};

verus! {

/// The file tree below one root directory.
pub struct FileTreeComponent {
    root: String,
    expanded_dirs: Vec<String>,
    selected: Option<String>,
}

/// The model of the file tree.
pub struct FileTreeState {
    pub root: Seq<char>,
    /// The open directories, in the order in which they were opened.
    pub expanded: Seq<Seq<char>>,
    pub selected: Option<Seq<char>>,
}

impl FileTreeState {
    /// The tree with `path` closed if it was open, and opened last if it was not.
    pub open spec fn toggled(self, path: Seq<char>) -> FileTreeState {
        let at = first_index(self.expanded, path);
        if at < self.expanded.len() {
            FileTreeState { expanded: self.expanded.remove(at), ..self }
        } else {
            FileTreeState { expanded: self.expanded.push(path), ..self }
        }
    }
}

impl View for FileTreeComponent {
    type V = FileTreeState;

    closed spec fn view(&self) -> FileTreeState {
        FileTreeState {
            root: self.root@,
            expanded: texts(self.expanded_dirs@),
            selected: match self.selected {
                Some(path) => Some(path@),
                None => None,
            },
        }
    }
}

impl FileTreeComponent {
    /// The tree below `root`: no directory open, nothing selected.
    pub fn new(root: String) -> (tree: FileTreeComponent)
        ensures
            tree@ == (FileTreeState { root: root@, expanded: Seq::empty(), selected: None }),
    {
        let tree = FileTreeComponent { root, expanded_dirs: Vec::new(), selected: None };
        assert(tree@.expanded =~= Seq::<Seq<char>>::empty());
        tree
    }

    /// Closes the directory `path` if it is open, and opens it if it is not.
    pub fn toggle_expand(&mut self, path: String)
        ensures
            final(self)@ == old(self)@.toggled(path@),
    {
        match find_text(&self.expanded_dirs, &path) {
            Some(at) => {
                self.expanded_dirs.remove(at);
                assert(self@.expanded =~= old(self)@.expanded.remove(at as int));
            },
            None => {
                self.expanded_dirs.push(path);
                assert(self@.expanded =~= old(self)@.expanded.push(path@));
            },
        }
    }

    /// Selects `path`.
    pub fn select(&mut self, path: String)
        ensures
            final(self)@ == (FileTreeState { selected: Some(path@), ..old(self)@ }),
    {
        self.selected = Some(path);
    }

    /// Whether the directory `path` is open.
    pub fn is_expanded(&self, path: &String) -> (open: bool)
        ensures
            open == (first_index(self@.expanded, path@) < self@.expanded.len()),
    {
        find_text(&self.expanded_dirs, path).is_some()
    }
}

} // verus!
