//! Finds big files under a directory, down to a bounded depth, and decides,
//! one file at a time, whether to ask about it, delete it, or stop.
//!
//! The walk over the file system, the prompt and the deletion are done by
//! the caller; this library holds the decisions and the text shown.
pub mod args;
pub mod report;
pub mod scan;
