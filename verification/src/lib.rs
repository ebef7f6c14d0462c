//! A one-line shell interpreter: a tokenizer with quote and escape rules,
//! a fixed table of builtin commands, a search-path resolver, and a
//! dispatcher that turns an input line into the action to perform.
//!
//! All filesystem, environment and process work happens outside this crate;
//! the library computes over plain values handed in and returns plain values.

pub mod builtins;
pub mod dispatch;
pub mod resolver;
pub mod strutil;
pub mod tokenizer;
