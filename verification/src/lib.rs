//! Turning a GitHub repository into a prompt-friendly summary: parsing the
//! repository URL, walking its listings into a tree, choosing which file
//! contents to read, and rendering the summary.
pub mod body;
pub mod command;
pub mod errors;
pub mod files;
pub mod glob_match;
pub mod laws;
pub mod model;
pub mod query;
pub mod query_laws;
pub mod run_laws;
pub mod session;
pub mod summary;
pub mod summary_laws;
pub mod text;
pub mod walk;
