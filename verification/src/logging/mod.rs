//! Logging: the log section and resolved configuration, the designator
//! vocabulary and filter, the request-span fields, and the human line.

pub mod level;
pub mod designator;
pub mod filter;
pub mod config;
pub mod span;
pub mod format;
