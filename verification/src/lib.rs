//! In-memory mirror of an accessibility hierarchy: an incrementally built,
//! cancellable tree of accessible-object snapshots, spatial hit-testing
//! ("picking") over nested screen rectangles, and the highlight state machine
//! driven by pointer events.
//!
//! The asynchronous transport that fetches object attributes and child lists
//! lives outside this crate; it drives the [`overview::Overview`] state
//! machine through plain-value events and performs the fetches that the
//! returned [`overview::Action`] values request.

pub mod geometry;
pub mod highlight;
pub mod overview;
pub mod tree;
