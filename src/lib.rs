//! A local key/value store with named shell commands and hooks that fire on
//! reads, writes and deletions of particular keys.
//!
//! - [`kvmap`]: maps from text keys to text values, for data and commands.
//! - [`store`]: the persisted aggregate, its hooks, and its plain contents.
//! - [`engine`]: which hooks an operation sets off, and what each one runs.
//! - [`dispatch`]: one request carried out on a store.
//! - [`listing`]: the aligned tables that a listing prints.
//! - [`op`]: the operation kinds and their tokens.
//! - [`laws`]: properties relating several operations.
pub mod dispatch;
pub mod engine;
pub mod kvmap;
pub mod laws;
pub mod listing;
pub mod op;
pub mod store;
