//! An append-only, line-delimited event log for tasks and streams, with the
//! deterministic replay that derives current state from it, a lean index,
//! monthly archival, a tolerant validator and optimistic write checks.
pub mod archive;
pub mod cli;
pub mod concurrency;
pub mod context;
pub mod id;
pub mod index;
pub mod model;
pub mod replay;
pub mod shell;
pub mod text;
pub mod time;
pub mod ui;
pub mod validate;
pub mod writer;
