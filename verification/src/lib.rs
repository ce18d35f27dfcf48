//! A small declarative line-transformation engine.
//!
//! A `PluginManager` owns an ordered list of `Plugin`s, each a named list of
//! `LineFunction`s. A line function optionally matches a line (a byte string)
//! against a regular expression and then applies an ordered list of positional
//! edits — insertions, inclusive-range replacements, or side-channel log
//! messages — at offsets resolved relative to the line's boundaries or to the
//! start of the match. Errors never abort processing: every effect, function,
//! plugin and line is attempted, and all failures are collected and returned
//! beside the best-effort output.

pub mod effect;
pub mod error;
pub mod laws;
pub mod line_function;
pub mod matcher;
pub mod plugin;
pub mod position;
pub mod text;
