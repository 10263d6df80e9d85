//! Transaction-level refresh queue for coalesced TVIEW updates.
pub mod key;

pub use key::RefreshKey;
pub mod state;

pub use state::{get_queue_contents, get_queue_size, RefreshQueue};
pub mod patch;
pub mod ops;

pub use ops::{enqueue_refresh, enqueue_refresh_bulk, enqueue_refresh_dedup, enqueue_refresh_patched, is_queue_empty};
pub mod xact;
pub mod graph;
pub mod flush;
pub mod cache;
