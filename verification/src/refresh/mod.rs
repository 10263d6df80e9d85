//! Refresh logic that decides what to recompute and what to patch.
pub mod direct;
pub mod row;
pub mod bulk;
pub mod cache;
pub mod array_ops;
