//! Local store for a novel-writing workflow application: a versioned,
//! forward-only schema migration runner and a relational access layer for
//! projects, workflows, node graphs, settings, global configuration and
//! execution history.

pub mod crud;
pub mod deletes;
pub mod laws;
pub mod migrate;
pub mod rows;
pub mod schema;
pub mod store;
pub mod updates;

pub use schema::StoreError;
