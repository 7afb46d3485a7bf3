//! Command-line front end of a device runtime manager: the argument parser,
//! the dual-mode output encoder (single-line JSON, `KEY=VALUE` text) and the
//! dispatcher that turns a parsed invocation into what it writes and its exit code.

pub mod cli;
pub mod dispatch;
pub mod exit_codes;
pub mod output;
