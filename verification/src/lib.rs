//! Verified storage-reader core: derives backend storage keys from logical
//! addresses (namespace, entry, key components) using metadata-declared hash
//! algorithms, resolves defaults for absent values, applies validated
//! offset/length windows, and accounts the cost of the whole operation.
//!
//! The raw key-value store and the metadata registry are external
//! collaborators: the pipeline here is split so that a thin driver performs
//! the actual reads and hands their results back as plain values.

pub mod hashing;
pub mod key;
pub mod output;
pub mod params;
pub mod reader;
pub mod weights;
pub mod wire;
