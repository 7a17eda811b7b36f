//! Inspecting how a virtual repository resolves a project: the candidate selected for each filename, and
//! every candidate a member shadowed.
pub mod http;
pub mod laws;
pub mod query;
