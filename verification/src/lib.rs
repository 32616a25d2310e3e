//! Hunting for jobs: automations that search job boards, what they have found, and what a program
//! that asks for it gets to see.
//!
//! - [`linkedin`] asks LinkedIn's guest endpoint for postings and reads its pages.
//! - [`autopilot`] keeps the automations and merges what their runs find.
//! - [`run`] decides what a run does besides: which descriptions to look up, which jobs get a
//!   note, and what to say where a run came up short.
//! - [`agent_read`] answers the questions of agents, with no more than they may see.
//! - [`agent_cli`] is the command line that asks those questions.
//!
//! The rest is what these share: [`text`], [`decimal`] and [`json`], a [`posting`], the [`error`]
//! that is reported, the [`clock`] and [`chance`].
pub mod agent_cli;
pub mod agent_read;
pub mod autopilot;
pub mod chance;
pub mod clock;
pub mod decimal;
pub mod error;
pub mod json;
pub mod linkedin;
pub mod posting;
pub mod run;
pub mod text;
