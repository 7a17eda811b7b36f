//! Search documents: what the search index holds of a project.
pub mod detail;
pub mod laws;
pub mod scope;
pub mod text;
