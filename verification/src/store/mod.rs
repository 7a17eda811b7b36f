//! The records of this ecosystem in the registry's key-value store.
pub mod attestations;
pub mod audit;
pub mod audit_laws;
pub mod batch_laws;
pub mod batches;
pub mod catalog;
pub mod derived_laws;
pub mod files;
pub mod index;
pub mod index_laws;
pub mod journal;
pub mod key_laws;
pub mod keys;
pub mod mutation_laws;
pub mod order_laws;
pub mod overrides;
pub mod projects;
pub mod publish_laws;
pub mod read_laws;
pub mod reads;
pub mod record;
pub mod record_laws;
pub mod repair;
pub mod repair_laws;
pub mod scan_laws;
pub mod summary;
pub mod summary_laws;
pub mod txn;
pub mod uploads;
pub mod values;
