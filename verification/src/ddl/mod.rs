//! Creating and dropping TVIEWs.
pub mod create;
pub mod table;
pub mod register;
pub mod drop;
pub mod convert;
