//! axbind: a configuration-driven text-binding engine.
//!
//! The library resolves named map and function definitions through a
//! lazily populated, single-parse definition cache, computes effective
//! per-capture settings by field-wise overlay merge of nested scopes,
//! and threads captured text through an ordered pipeline of
//! transformation layers (map lookups, chained through inclusions, or
//! function invocations) before escaping and assembly into per-group
//! output.
//!
//! File discovery, raw configuration parsing, process invocation and
//! all other I/O stay with the caller: the pipeline reports what it
//! needs (a definition to load, a command to run) and the caller feeds
//! the outcome back in.

pub mod config;
pub mod context;
pub mod errors;
pub mod extract;
pub mod filebase;
pub mod maps;
pub mod pipeline;

pub use filebase::{AxbindFilebase, Filebase, IdentifierType};
pub mod overlay;
pub mod schema;
pub mod text;
