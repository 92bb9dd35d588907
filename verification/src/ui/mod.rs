//! What the user interface keeps between two frames.

pub mod components;
pub mod state;

pub use state::AppState;
