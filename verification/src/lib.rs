//! Verified core of gitsurveil: the pure logic behind the GitHub action-item
//! monitor (scoring, diffing, conflict parsing, normalization).

pub mod api;
pub mod clock;
pub mod codec;
pub mod conflict;
pub mod diff;
pub mod github;
pub mod item;
pub mod lines;
pub mod notifications;
pub mod order;
pub mod ordered;
pub mod parse;
pub mod poller;
pub mod pr;
pub mod priority;
pub mod repo;
pub mod service;
pub mod startup;
pub mod session;
pub mod severity;
pub mod text;
pub mod worktrees;
