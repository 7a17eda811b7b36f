//! Answering requests: the Simple API, file downloads, archive inspection, uploads and the browse view.
//!
//! Every function here decides on plain values: what a request said, and what the store, the cache or the
//! upstream answered. It returns the reply, or the next thing to do.
pub mod access;
pub mod admission;
pub mod archive_laws;
pub mod blob;
pub mod browse;
pub mod dispatch;
pub mod finalize;
pub mod form_laws;
pub mod inspect;
pub mod laws;
pub mod negotiate;
pub mod page_model;
pub mod project_view;
pub mod reply;
pub mod response;
pub mod response_laws;
pub mod route;
pub mod route_laws;
pub mod upload;
pub mod upload_form;
pub mod view_laws;
pub mod web;
pub mod write_laws;
