//! Rules of single services, each on values that the caller has read from
//! its storage.

pub mod asset;
pub mod context;
pub mod invoice;
pub mod listing;
pub mod pack_variant;
