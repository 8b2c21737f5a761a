//! Styling and interactive layout primitives for a tabbed-docking panel
//! system: a passive bundle of visual parameters, the drag-to-resize split
//! resolver, and the tab-header layout and hit-test logic.
//!
//! All geometry is computed on exact rational coordinates, so split
//! clamping, pixel snapping and region derivation carry proved contracts;
//! a thin host bridge converts to and from the toolkit's float types.

pub mod geometry;
pub mod laws;
pub mod rational;
pub mod split;
pub mod style;
pub mod tab;
