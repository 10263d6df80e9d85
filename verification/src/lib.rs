//! Transactional materialized views: the verified core of `pg_tviews`.
use vstd::prelude::*;

pub mod text;
pub mod error;
pub mod schema;
pub mod queue;
pub mod config;
pub mod metrics;
pub mod parser;
pub mod catalog;
pub mod refresh;
pub mod sql;
pub mod hooks;
pub mod ddl;
pub mod propagate;
pub mod dependency;
pub mod cascade;
pub mod audit;
pub mod health;
pub mod lifecycle;

pub use error::{TViewError, TViewResult};

verus! {
} // verus!
