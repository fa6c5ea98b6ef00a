//! The decisions of `fs_util`, a command line tool that reads and writes a
//! content-addressed store of files and directories.

pub mod args;
pub mod commands;
pub mod composition;
pub mod digest;
pub mod execute;
pub mod execution;
pub mod exit;
pub mod laws;
pub mod listing;
pub mod order;
pub mod outcome;
pub mod protocol;
pub mod report;
pub mod store;
pub mod text;
pub mod transcript;
pub mod views;
pub mod walk;
