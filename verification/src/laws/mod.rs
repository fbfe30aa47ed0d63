//! What holds of the library as a whole.
//!
//! Where a law asks that something was found in SQL, such as
//! `pattern::calls_found`, the functions that look for it ensure just that:
//! `Compiler::compile` ensures `compiler::steps_found`, and `parse_model` ensures
//! `parser::all_found`.

pub mod arguments;
pub mod closing;
pub mod compile;
pub mod dialects;
pub mod extract;
pub mod files;
pub mod functions;
pub mod jobs;
pub mod layout;
pub mod models;
pub mod parentheses;
pub mod prompts;
pub mod run;
pub mod templates;
