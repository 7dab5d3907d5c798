//! A pattern-layout engine for structured log events.
//!
//! A template string such as `"$level(width=5,alignment='>') $target: $message"`
//! is compiled once into an immutable [`pattern::Pattern`]; the pattern is then
//! rendered against one event at a time, resolving each placeholder from the
//! event's level, target, recorded fields and surrounding span.

pub mod fields;
pub mod numfmt;
pub mod parse;
pub mod pattern;
pub mod render;
pub mod strutil;
