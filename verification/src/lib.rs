pub mod api;
pub mod app;
mod bytes;
pub mod client;
pub mod events;
pub mod exchange;
pub mod git_refresh;
pub mod input;
pub mod layout;
pub mod layout_laws;
pub mod lease_laws;
pub mod lease_round;
pub mod lease_sync;
pub mod leases;
pub mod names;
pub mod protocol;
pub mod refusal;
pub mod request_laws;
pub mod revocations;
pub mod runtimes;
pub mod schedule;
pub mod selection;
pub mod sequences;
pub mod task_laws;
pub mod tasks;
pub mod terminal;
pub mod text;
pub mod timers;
pub mod wait_lease;
