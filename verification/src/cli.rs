//! Helpers for command-line tools: their arguments, names for well-known
//! OIDs and the text forms of values.

pub mod args;
pub mod hints;
pub mod output;
