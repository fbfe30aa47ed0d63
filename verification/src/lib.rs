//! A SQL compiler for models that call AI functions.

pub mod bq;
pub mod compiler;
pub mod config;
pub mod dialect;
pub mod frontmatter;
pub mod graph;
pub mod laws;
pub mod parser;
pub mod pattern;
pub mod runner;
pub mod sqlite_udf;
pub mod text;
pub mod yaml;
