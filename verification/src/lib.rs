//! Job status bookkeeping, API replies, health checking and job-file
//! diagnostics of the autopilot automation tool, with their contracts.

pub mod status;
pub mod status_laws;
pub mod job;
pub mod api;
pub mod api_laws;
pub mod lifecycle;
pub mod client;
pub mod duplicates;
pub mod search;
pub mod gui;
