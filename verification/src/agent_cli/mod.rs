//! The command line client of the desktop application.
pub mod help;
pub mod launch;
pub mod mcp;
pub mod outcomes;
pub mod pairing;
pub mod reading;
pub mod verb;
pub mod wire;
