//! The data-synchronization translation engine.
//!
//! Buffered change records in the legacy format are put in order,
//! translated into normalized rows by the translator of their table and
//! applied; merges of entities are resolved through the link store.

pub mod domain_store;
pub mod envelope;
pub mod integration;
pub mod integration_laws;
pub mod link_laws;
pub mod link_store;
pub mod name_merge;
pub mod payload;
pub mod plan;
pub mod records;
pub mod registry;
pub mod table;
pub mod test_data;
pub mod translation;
