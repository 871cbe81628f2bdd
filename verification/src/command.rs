//! What the engine asks its runtime to do.

use crate::log_id::LogId;
use crate::membership::{Membership, StoredMembership};
use crate::sm;
use crate::type_config::{NodeId, RaftTypeConfig};
use crate::vote::{LeaderId, Vote};
use crate::vote_message::VoteRequest;
use vstd::prelude::*;

verus! {

/// What a log entry carries.
#[derive(Debug, PartialEq)]
pub enum EntryPayload<C: RaftTypeConfig> {
    Blank,
    Normal(C::D),
    Membership(Membership<C::NodeId>),
}

/// A log entry.
#[derive(Debug, PartialEq)]
pub struct Entry<C: RaftTypeConfig> {
    pub log_id: LogId<C::NodeId>,
    pub payload: EntryPayload<C>,
}

/// What a snapshot covers.
#[derive(Clone, Debug, PartialEq, Eq)]
pub struct SnapshotMeta<NID: NodeId> {
    pub last_log_id: Option<LogId<NID>>,
    pub last_membership: StoredMembership<NID>,
    pub snapshot_id: String,
}

/// A snapshot of the state machine.
#[derive(Debug, PartialEq)]
pub struct Snapshot<C: RaftTypeConfig> {
    pub meta: SnapshotMeta<C::NodeId>,
    pub snapshot: Box<C::SnapshotData>,
}

/// What is being sent to one follower.
#[derive(Clone, Debug, PartialEq, Eq)]
pub enum Inflight<NID: NodeId> {
    Idle,
    /// The entries after `prev`, up to and with `last`.
    Logs { id: u64, prev: Option<LogId<NID>>, last: Option<LogId<NID>> },
    Snapshot { id: u64, last_log_id: Option<LogId<NID>> },
}

/// How far one follower has replicated the log.
#[derive(Clone, Debug, PartialEq, Eq)]
pub struct ProgressEntry<NID: NodeId> {
    pub matching: Option<LogId<NID>>,
    pub curr_inflight_id: u64,
    pub inflight: Inflight<NID>,
    pub searching_end: u64,
}

/// What has to have happened before an answer may be sent.
#[derive(Clone, Debug, PartialEq, Eq)]
pub enum Condition<NID: NodeId> {
    LogFlushed { leader: LeaderId<NID>, log_id: Option<LogId<NID>> },
    Applied { log_id: Option<LogId<NID>> },
    StateMachineCommand { command_seq: sm::CommandSeq },
}

/// An answer and the caller that waits for it.
#[derive(Debug, PartialEq)]
pub struct Respond<C: RaftTypeConfig> {
    pub value: C::Reply,
    pub sender: C::ReplySender,
}

impl<C: RaftTypeConfig> Respond<C> {
    pub fn new(value: C::Reply, sender: C::ReplySender) -> (r: Self)
        ensures
            r == (Respond::<C> { value, sender }),
    {
        Respond { value, sender }
    }
}

/// A command from the engine to its runtime.
#[derive(Debug, PartialEq)]
pub enum Command<C: RaftTypeConfig> {
    /// Run a state machine command.
    StateMachine { command: sm::Command<C> },
    /// The node became the leader.
    BecomeLeader,
    /// The node is no longer the leader.
    QuitLeader,
    /// Append entries to the log.
    AppendInputEntries { vote: Vote<C::NodeId>, entries: Vec<Entry<C>> },
    /// Tell the followers what is committed.
    ReplicateCommitted { committed: Option<LogId<C::NodeId>> },
    /// Apply the committed entries after `already_committed`, up to and with
    /// `upto`.
    Commit {
        seq: sm::CommandSeq,
        already_committed: Option<LogId<C::NodeId>>,
        upto: LogId<C::NodeId>,
    },
    /// Send entries or a snapshot to one follower.
    Replicate { target: C::NodeId, req: Inflight<C::NodeId> },
    /// Replace the replication streams, after a change of membership.
    RebuildReplicationStreams { targets: Vec<(C::NodeId, ProgressEntry<C::NodeId>)> },
    /// Persist a vote.
    SaveVote { vote: Vote<C::NodeId> },
    /// Ask the other voters for their vote.
    SendVote { vote_req: VoteRequest<C::NodeId> },
    /// Delete the entries up to and with `upto`.
    PurgeLog { upto: LogId<C::NodeId> },
    /// Delete the entries from `since` on.
    DeleteConflictLog { since: LogId<C::NodeId> },
    /// Answer a caller, once the condition holds.
    Respond { when: Option<Condition<C::NodeId>>, resp: Respond<C> },
}

impl<C: RaftTypeConfig> Command<C> {
    /// Whether a commit may not move across this command: the ones that order
    /// state machine writes, remove log entries, or wait for a condition.
    pub open spec fn barrier(self) -> bool {
        match self {
            Command::StateMachine { .. } => true,
            Command::PurgeLog { .. } => true,
            Command::DeleteConflictLog { .. } => true,
            Command::Respond { when, .. } => when is Some,
            _ => false,
        }
    }

    /// Whether the commit `next` continues this commit: a later command whose
    /// entries start where the entries of this one end.
    pub open spec fn continued_by(self, next: Self) -> bool {
        match (self, next) {
            (
                Command::Commit { seq: old_seq, upto: old_upto, .. },
                Command::Commit { seq, already_committed, upto },
            ) => {
                &&& old_seq < seq
                &&& already_committed == Some(old_upto)
                &&& old_upto.before(upto)
                &&& old_upto.index < upto.index
            },
            _ => false,
        }
    }

    /// The commit that covers this commit and `next`: the first start, the
    /// latest end and the latest sequence number.
    pub open spec fn joined_with(self, next: Self) -> Self {
        Command::Commit {
            seq: next->seq,
            already_committed: self->already_committed,
            upto: next->Commit_upto,
        }
    }

    /// Whether this command is a commit.
    pub fn is_commit(&self) -> (r: bool)
        ensures
            r == (self is Commit),
    {
        match self {
            Command::Commit { .. } => true,
            _ => false,
        }
    }

    /// Whether a commit may not move across this command.
    pub fn is_barrier(&self) -> (r: bool)
        ensures
            r == self.barrier(),
    {
        match self {
            Command::StateMachine { .. } => true,
            Command::PurgeLog { .. } => true,
            Command::DeleteConflictLog { .. } => true,
            Command::Respond { when: Some(_), .. } => true,
            _ => false,
        }
    }

    /// Whether the commit `next` continues this commit.
    pub fn is_continued_by(&self, next: &Self) -> (r: bool)
        ensures
            r == self.continued_by(*next),
    {
        match (self, next) {
            (
                Command::Commit { seq: old_seq, upto: old_upto, .. },
                Command::Commit { seq, already_committed, upto },
            ) => {
                let adjacent = match already_committed {
                    Some(start) => *start == *old_upto,
                    None => false,
                };
                *old_seq < *seq && adjacent && old_upto.precedes(upto) && old_upto.index
                    < upto.index
            },
            _ => false,
        }
    }
}

impl<C: RaftTypeConfig> From<sm::Command<C>> for Command<C> {
    fn from(command: sm::Command<C>) -> (r: Self) {
        Command::StateMachine { command }
    }
}

impl<C: RaftTypeConfig> vstd::std_specs::convert::FromSpecImpl<sm::Command<C>> for Command<C> {
    open spec fn obeys_from_spec() -> bool {
        true
    }

    open spec fn from_spec(command: sm::Command<C>) -> Self {
        Command::StateMachine { command }
    }
}

} // verus!
