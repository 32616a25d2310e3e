//! What an agent can read: the jobs, the automations and the best matches, each cut down to the
//! fields that may leave the program.
pub mod asking;
pub mod best_matches;
pub mod contents;
pub mod found_jobs;
pub mod outcomes;
pub mod projection;
pub mod query;
pub mod resources;
pub mod round_trip;
pub mod secrets;
