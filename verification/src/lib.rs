//! The PyPI ecosystem of a package registry.
pub mod collections;
pub mod digest;
pub mod distribution;
pub mod outside;
pub mod policy;
pub mod policy_engine;
pub mod policy_laws;
pub mod quota;
pub mod retention;
pub mod retention_laws;
pub mod search;
pub mod serial;
pub mod serving;
pub mod shadow;
pub mod simple;
pub mod simple_client;
pub mod source_policy;
pub mod store;
pub mod stream;
pub mod sync_lock;
pub mod text;
pub mod text_laws;
pub mod upstream_laws;
