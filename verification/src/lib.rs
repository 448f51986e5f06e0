//! The verified core of a supply-chain backend: the engine that integrates
//! synchronized change records, and the rules of a few services.

pub mod seq_util;
pub mod service;
pub mod sync;
pub mod text;
