//! How each target writes the call of an AI function.

pub mod args;
pub mod bigquery;
pub mod databricks;
pub mod postgresql;
pub mod snowflake;
