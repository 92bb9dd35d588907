//! The layout engine: one rectangle of the viewport for each session, and
//! the session that a move of the focus in one direction leads to.

pub mod cuts;
pub mod engine;
pub mod geometry;
pub mod laws;
pub mod tiles;

pub use engine::LayoutEngine;
pub use geometry::{
    Axis, Container, ContainerContent, ContainerId, FocusDirection, LayoutError, LayoutMode, Rect,
    Share, Size, TileLayout,
};
