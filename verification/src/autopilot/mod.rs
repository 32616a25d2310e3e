//! Saved searches ("autopilots"): the records, what a run adds to them and the store.
pub mod changes;
pub mod cluster;
pub mod fields;
pub mod laws;
pub mod merge;
pub mod model;
pub mod order;
pub mod outcomes;
pub mod records;
pub mod relax;
pub mod requests;
pub mod status;
pub mod store;
