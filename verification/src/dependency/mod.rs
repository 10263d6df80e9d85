//! The base tables a TVIEW's backing view reads, found by walking the catalog.
pub mod graph;
pub mod triggers;
