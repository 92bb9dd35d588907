//! The core of a terminal multiplexer.
//!
//! - `terminal`: the screen of one session — a grid of cells driven by an
//!   escape-sequence parser — with the key encoding, the session around the
//!   screen, and the plan by which its child is started.
//! - `workspace`: the ordered set of sessions and the one that is active.
//! - `layout`: one rectangle of the viewport for each session, and the moves
//!   of the focus between them.
//! - `input`: what a key, a click and a command line ask of the application.
//! - `ui`: what the interface keeps between two frames.
//! - `monitor`: the files that sessions work on, and those that they share.
//! - `git`: the status of the repository and the branches of the sessions.
//! - `config`: the configuration and its defaults.
//! - `text`: lists of strings.

pub mod config;
pub mod git;
pub mod input;
pub mod layout;
pub mod monitor;
pub mod terminal;
pub mod text;
pub mod ui;
pub mod workspace;
