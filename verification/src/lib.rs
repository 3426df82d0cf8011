//! Verified query and analysis core of the CodeGraph language server.
pub mod text;
pub mod graph;
pub mod primitives;
pub mod reach;
pub mod query;
pub mod engine;
pub mod pattern;
pub mod signature;
pub mod entry;
pub mod bfs;
pub mod traverse;
pub mod navigation;
pub mod analysis;
pub mod impact;
pub mod requests;
pub mod edit;
pub mod embedding;
pub mod migration;
pub mod source;
pub mod coupling;
pub mod commands;
pub mod context;
pub mod metrics;
pub mod domain;
pub mod memory;
pub mod git;
pub mod lsp;
pub mod indexing;
pub mod uri;
pub mod location;
