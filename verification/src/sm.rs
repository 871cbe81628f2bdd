//! Commands for the state machine.

use crate::command::Snapshot;
use crate::log_id::LogId;
use crate::type_config::RaftTypeConfig;
use vstd::prelude::*;

verus! {

/// Numbers the state machine commands of one engine.
pub type CommandSeq = u64;

/// What the state machine has to do.
#[derive(Debug, PartialEq)]
pub enum CommandPayload<C: RaftTypeConfig> {
    BuildSnapshot,
    GetSnapshot { tx: C::ReplySender },
    BeginReceivingSnapshot { tx: C::ReplySender },
    InstallFullSnapshot { snapshot: Snapshot<C> },
    Apply { first: LogId<C::NodeId>, last: LogId<C::NodeId> },
}

/// A state machine command with its sequence number, which is 0 until the
/// engine's output queue assigns one.
#[derive(Debug, PartialEq)]
pub struct Command<C: RaftTypeConfig> {
    pub seq: CommandSeq,
    pub payload: CommandPayload<C>,
}

impl<C: RaftTypeConfig> Command<C> {
    pub fn new(payload: CommandPayload<C>) -> (r: Self)
        ensures
            r == (Command::<C> { seq: 0, payload }),
    {
        Command { seq: 0, payload }
    }

    pub fn build_snapshot() -> (r: Self)
        ensures
            r == (Command::<C> { seq: 0, payload: CommandPayload::BuildSnapshot }),
    {
        Command::new(CommandPayload::BuildSnapshot)
    }

    pub fn begin_receiving_snapshot(tx: C::ReplySender) -> (r: Self)
        ensures
            r == (Command::<C> { seq: 0, payload: CommandPayload::BeginReceivingSnapshot { tx } }),
    {
        Command::new(CommandPayload::BeginReceivingSnapshot { tx })
    }

    pub fn install_full_snapshot(snapshot: Snapshot<C>) -> (r: Self)
        ensures
            r == (Command::<C> { seq: 0, payload: CommandPayload::InstallFullSnapshot { snapshot } }),
    {
        Command::new(CommandPayload::InstallFullSnapshot { snapshot })
    }

    pub fn set_seq(&mut self, seq: CommandSeq)
        ensures
            *final(self) == (Command::<C> { seq, ..*old(self) }),
    {
        self.seq = seq;
    }
}

} // verus!
