//! What a run of an autopilot does around its search.
pub mod diagnostics;
pub mod enrich;
pub mod notes;
pub mod outcomes;
pub mod scrape;
