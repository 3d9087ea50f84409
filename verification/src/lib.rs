//! Batch command engine: shell-quoted command rendering, process-outcome
//! classification, stream-merge bookkeeping, verbosity policy, and
//! keep-going batch semantics.
//!
//! All process, file, network, and terminal I/O lives outside this crate;
//! the library receives plain values (exit facts, captured bytes, directory
//! listings, probe results) and returns decisions and reports with proved
//! contracts.

pub mod batch;
pub mod cmd;
pub mod cmdline;
pub mod commands;
pub mod finder;
pub mod github;
pub mod logging;
pub mod mux;
pub mod outcome;
pub mod project;
pub mod quoting;
pub mod runner;
pub mod runpr;
pub mod strutil;
pub mod verbosity;
