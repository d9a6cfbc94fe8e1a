//! A verified core for a project-scaffolding command-line tool.
//!
//! The centrepiece is the local-dependency vendoring engine: it discovers
//! every package that a root manifest reaches through `path = "..."`
//! dependency entries, stages a self-contained copy of each such package
//! exactly once, and rewrites the staged manifests so that the staged tree
//! builds on its own.

pub mod config;
pub mod discovery;
pub mod manager;
pub mod routes;
pub mod scaffold;
pub mod scripts;
pub mod manifest;
pub mod paths;
pub mod plan;
pub mod project;
pub mod toml_io;
pub mod vendor;
pub mod vendor_laws;

