//! Which session touches which file: the files that each session tracks,
//! the changes seen on disk, and the files that several sessions share.

pub mod conflicts;
pub mod tracker;

pub use conflicts::{ConflictDetector, ConflictResolution, FileConflict};
pub use tracker::{ChangeType, FileChange, FileEvent, FileEventKind, FileTracker};
