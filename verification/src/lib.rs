//! Answer-validation engine for an interactive graph-database tutorial.
//!
//! Learners write two kinds of text files in a small DSL: a schema file
//! declaring nodes, edges and vectors, and a queries file declaring named
//! parameterized queries.  This crate parses both dialects into structured
//! models and diffs a learner's model against a reference model, producing
//! an itemized report of every discrepancy.  Parsing is deliberately
//! lenient: malformed lines degrade into a partial model instead of an
//! error, so every submission yields a diffable result.
//!
//! All parsing and diffing is pure and verified; file reading, terminal
//! rendering and live query execution live outside this crate.

pub mod instance;
pub mod laws;
pub mod lesson_types;
pub mod lessons;
pub mod model;
pub mod query;
pub mod query_diff;
pub mod schema_diff;
pub mod schema_parse;
pub mod strutil;
