//! The session core: screen grid, escape-sequence parser and key encoding.

pub mod emit;
pub mod files;
pub mod grid;
pub mod keys;
pub mod laws;
pub mod parser;
pub mod session;
pub mod spawn;
