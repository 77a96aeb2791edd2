//! Reconciliation of a catalog of liked tracks with a catalog of loved tracks.

pub mod credentials;
pub mod entities;
pub mod errors;
pub mod item;
pub mod laws;
pub mod ledger;
pub mod pending;
pub mod pipeline;
pub mod resolver;
pub mod sequences;
pub mod storage;
pub mod summary;
pub mod syncer;
pub mod text;
