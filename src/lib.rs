//! Keyboard focus navigation over a grid of heterogeneous panes.
//!
//! The grid holds a header row (a tab strip whose cells share one selector)
//! and content rows (editable surfaces). Focus moves one cell at a time,
//! clamps at the grid's edges, and remembers the header cell it left when it
//! descends into the content rows.
pub mod direction;
pub mod grid;
pub mod registry;
pub mod focus;
