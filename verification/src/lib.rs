//! Front end of a small compiler: a lexer, a lossless syntax tree with an
//! error-recovering parser, and a module dependency graph with a build order
//! and a content-addressed parse cache.
//!
//! Source text goes through [`lexer`] to tokens, through [`parser`], which
//! follows [`grammar`], to [`event`]s, and through [`sink`] to a tree of
//! the `rowan` crate (see [`green`]). Modules and what they import are kept
//! in [`dependency`], which also orders them for a build and caches their
//! trees. [`pipeline`] and [`session`] put these together for the build of
//! a file and of a project; reading files, printing and persisting are left
//! to the caller.

pub mod codegen;
pub mod config;
pub mod dependency;
pub mod error;
pub mod event;
pub mod grammar;
pub mod green;
pub mod imports;
pub mod kind;
pub mod lexer;
pub mod parser;
pub mod path;
pub mod pipeline;
pub mod project;
pub mod session;
pub mod sink;
pub mod snapshot;
pub mod table;
pub mod text;
pub mod token;
pub mod topo;
pub mod types;
