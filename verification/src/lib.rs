//! Cross-shell environment variable compiler.
//!
//! A configuration value is a string mixing literal text with shell-variable
//! references (`$NAME`, `${NAME}`), command substitutions (`$(cmd)`), and
//! home-directory tilde expansions (`~user`). This crate classifies such a
//! string into typed segments and renders the segments as correctly quoted
//! syntax for several shell dialects, together with the `set`/`unset` script
//! lines that a driver emits for each variable binding.

pub mod cli;
pub mod convert;
pub mod structure;
