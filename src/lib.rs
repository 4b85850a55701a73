//! A key-value command engine over a concurrent hash map of strings.
//!
//! `engine::ConcurrentHashMap` holds the data and runs `command::Command`s,
//! `decimal` says how counters are written as text, and `laws` proves what
//! holds across sequences of commands.

pub mod command;
pub mod decimal;
pub mod engine;
pub mod laws;
