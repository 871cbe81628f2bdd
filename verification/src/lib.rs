//! The deciding parts of a Raft node, with their behaviour stated and proved.
//!
//! - `engine`, `leadership_transfer`, `transfer_leader`: votes, leases and
//!   campaigns, and the planned handoff and retirement of a voter. What holds
//!   of elections is in `elections`, and what holds of handoffs and retirement,
//!   over any history of events, is in `retirement`.
//! - `engine_output`, `command`, `sm`: the queue of commands from the engine to
//!   its runtime. What coalescing its commits means, and what it preserves, is
//!   in `coalescing`.
//! - `bounded_apply`, `command_state`: applying a committed prefix page by page.
//! - `raft_inner`: how a call into the core task ends.
//! - `config`, `type_config`, `vote`, `vote_message`, `log_id`, `membership`,
//!   `raft_state`, `leadership`: the values that these work on.

pub mod bounded_apply;
pub mod coalescing;
pub mod command;
pub mod command_state;
pub mod config;
pub mod elections;
pub mod engine;
pub mod engine_output;
pub mod leadership;
pub mod leadership_transfer;
pub mod log_id;
pub mod membership;
pub mod raft_inner;
pub mod raft_state;
pub mod retirement;
pub mod sm;
pub mod transfer_leader;
pub mod type_config;
pub mod vote;
pub mod vote_message;
