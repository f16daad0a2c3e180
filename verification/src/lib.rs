//! Repositories of facts: revisions, branches, and the layered view that
//! queries read through.

pub mod artifact;
pub mod branch;
pub mod bytes;
pub mod changes;
pub mod concept;
pub mod durable;
pub mod encoding;
pub mod encoding_laws;
pub mod error;
pub mod identity;
pub mod layer;
pub mod layer_laws;
pub mod memory;
pub mod overlay;
pub mod plain;
pub mod repository;
pub mod revision;
pub mod rules;
pub mod schema;
pub mod session;
pub mod session_laws;
pub mod table;
pub mod tombstones;
pub mod transaction_laws;
pub mod upstream;
pub mod view_laws;
