//! The state of the commit dialog.

use vstd::prelude::*;
use vstd::string::*;
use crate::text::texts;

verus! {

/// The dialog in which a commit message is written.
pub struct CommitDialog {
    message: String,
    files_to_commit: Vec<String>,
    is_open: bool,
}

/// The model of the commit dialog.
pub struct CommitDialogState {
    pub message: Seq<char>,
    pub files: Seq<Seq<char>>,
    pub is_open: bool,
}

impl View for CommitDialog {
    type V = CommitDialogState;

    closed spec fn view(&self) -> CommitDialogState {
        CommitDialogState {
            message: self.message@,
            files: texts(self.files_to_commit@),
            is_open: self.is_open,
        }
    }
}

impl CommitDialog {
    /// A closed dialog without message or files.
    pub fn new() -> (dialog: CommitDialog)
        ensures
            dialog@ == (CommitDialogState {
                message: Seq::empty(),
                files: Seq::empty(),
                is_open: false,
            }),
    {
        let dialog = CommitDialog {
            message: String::new(),
            files_to_commit: Vec::new(),
            is_open: false,
        };
        assert(dialog@.files =~= Seq::<Seq<char>>::empty());
        dialog
    }

    /// Opens the dialog for `files`, with an empty message.
    pub fn open(&mut self, files: Vec<String>)
        ensures
            final(self)@ == (CommitDialogState {
                message: Seq::empty(),
                files: texts(files@),
                is_open: true,
            }),
    {
        self.files_to_commit = files;
        self.is_open = true;
        self.message = String::new();
    }

    /// Closes the dialog and forgets the message and the files.
    pub fn close(&mut self)
        ensures
            final(self)@ == (CommitDialogState {
                message: Seq::empty(),
                files: Seq::empty(),
                is_open: false,
            }),
    {
        self.is_open = false;
        self.message = String::new();
        self.files_to_commit = Vec::new();
        assert(self@.files =~= Seq::<Seq<char>>::empty());
    }

    /// Replaces the message.
    pub fn set_message(&mut self, message: String)
        ensures
            final(self)@ == (CommitDialogState { message: message@, ..old(self)@ }),
    {
        self.message = message;
    }

    /// The message.
    pub fn get_message(&self) -> (message: &str)
        ensures
            message@ == self@.message,
    {
        self.message.as_str()
    }

    /// Whether the dialog is open.
    pub fn is_open(&self) -> (open: bool)
        ensures
            open == self@.is_open,
    {
        self.is_open
    }

    /// The files that the commit is to hold.
    pub fn files(&self) -> (files: &Vec<String>)
        ensures
            texts(files@) == self@.files,
    {
        &self.files_to_commit
    }
}

} // verus!
