//! Orchestration layer for reading batch-oriented columnar read files.
//!
//! The storage engine that decodes the files is driven from outside this crate.
//! What lives here is the part that decides: the error taxonomy, the fetch
//! planner that maps requested read ids onto batch and row coordinates, the
//! traversal state machines over files, batches and rows, the compression
//! probe, and the projection of decoded rows into named columns.
pub mod endreason;
pub mod error;
pub mod fetch;
pub mod fileinfo;
pub mod probe;
pub mod project;
pub mod read;
pub mod readbatch;
pub mod reader;
pub mod reads;
pub mod runinfo;
pub mod selective;
pub mod text;
pub mod traversal;
