//! Step-through viewer core for recorded heap-allocator activity.
//!
//! The crate holds the parts of the viewer that decide something: where each
//! memory block of a snapshot lands on the terminal grid, which snapshot is
//! current, what a key press means, and the per-snapshot block statistics.
//! Drawing, input polling and loading of recordings are left to the caller.

pub mod data;
pub mod geometry;
pub mod input;
pub mod layout;
pub mod layout_lemmas;
pub mod navigation;
pub mod panel;
pub mod stats;

pub use data::{BenchmarkResult, HeapStep, MemoryBlock};
pub use geometry::{Rect, RectView};
pub use input::{command_for, Command, Key};
pub use layout::{layout, Placement, PlacementView};
pub use navigation::App;
pub use panel::{memory_map, panel_viewport};
pub use stats::{block_stats, BlockStats};
