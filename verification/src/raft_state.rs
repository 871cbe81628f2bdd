//! What a node knows: its vote and lease, its log, its membership and its role.

use crate::log_id::{owned_log_id, LogId};
use crate::membership::MembershipState;
use crate::type_config::NodeId;
use crate::vote::Vote;
use vstd::prelude::*;

verus! {

/// A reading of the runtime's monotonic clock, in milliseconds.
pub type Instant = u64;

/// The vote a node holds, when it was last confirmed, and whether the lease
/// that a committed vote gives its leader was released.
#[derive(Clone, Debug, PartialEq, Eq)]
pub struct LeasedVote<NID: NodeId> {
    pub vote: Vote<NID>,
    pub last_update: Option<Instant>,
    pub lease_disabled: bool,
}

impl<NID: NodeId> LeasedVote<NID> {
    /// A vote as it is taken at `now`, with the ordinary lease.
    pub open spec fn taken(now: Instant, vote: Vote<NID>) -> Self {
        LeasedVote { vote, last_update: Some(now), lease_disabled: false }
    }

    /// Whether the lease still runs at `now`.
    pub open spec fn leased(self, now: Instant, lease: u64) -> bool {
        &&& !self.lease_disabled
        &&& self.last_update matches Some(since) && now <= since + lease
    }

    pub fn new(now: Instant, vote: Vote<NID>) -> (r: Self)
        ensures
            r == Self::taken(now, vote),
    {
        LeasedVote { vote, last_update: Some(now), lease_disabled: false }
    }

    /// Take another vote. It has the ordinary lease, whatever became of the
    /// lease of the vote before it.
    pub fn update(&mut self, now: Instant, vote: Vote<NID>)
        ensures
            *final(self) == Self::taken(now, vote),
    {
        self.vote = vote;
        self.last_update = Some(now);
        self.lease_disabled = false;
    }

    /// Confirm the vote. A released lease stays released.
    pub fn touch(&mut self, now: Instant)
        ensures
            *final(self) == (LeasedVote { last_update: Some(now), ..*old(self) }),
    {
        self.last_update = Some(now);
    }

    /// Release the lease of the vote, and nothing else.
    pub fn disable_lease(&mut self)
        ensures
            *final(self) == (LeasedVote { lease_disabled: true, ..*old(self) }),
    {
        self.lease_disabled = true;
    }

    pub fn lease_disabled(&self) -> (r: bool)
        ensures
            r == self.lease_disabled,
    {
        self.lease_disabled
    }

    /// Whether the lease still runs at `now`.
    pub fn is_leased(&self, now: Instant, lease: u64) -> (r: bool)
        ensures
            r == self.leased(now, lease),
    {
        match self.last_update {
            Some(since) => !self.lease_disabled && (now <= since || now - since <= lease),
            None => false,
        }
    }
}

/// The log ids that a node keeps at hand; the last one is the end of its log.
#[derive(Clone, Debug, PartialEq, Eq)]
pub struct LogIdList<NID: NodeId> {
    pub key_log_ids: Vec<LogId<NID>>,
}

impl<NID: NodeId> LogIdList<NID> {
    pub fn new(key_log_ids: Vec<LogId<NID>>) -> (r: Self)
        ensures
            r == (LogIdList { key_log_ids }),
    {
        LogIdList { key_log_ids }
    }
}

/// What the node has finished with its log.
#[derive(Clone, Debug, PartialEq, Eq)]
pub struct IOState<NID: NodeId> {
    /// The last entry that the state machine has applied.
    pub applied: Option<LogId<NID>>,
}

impl<NID: NodeId> IOState<NID> {
    pub fn update_applied(&mut self, applied: Option<LogId<NID>>)
        ensures
            *final(self) == (IOState { applied }),
    {
        self.applied = applied;
    }
}

/// The role of a node.
#[derive(Clone, Copy, Debug, PartialEq, Eq, Structural)]
pub enum ServerState {
    Learner,
    Follower,
    Candidate,
    Leader,
}

/// The state of one node.
#[derive(Clone, Debug, PartialEq, Eq)]
pub struct RaftState<NID: NodeId> {
    pub vote: LeasedVote<NID>,
    /// The last entry that is known to be committed.
    pub committed: Option<LogId<NID>>,
    pub log_ids: LogIdList<NID>,
    pub membership_state: MembershipState<NID>,
    pub io_state: IOState<NID>,
    pub server_state: ServerState,
}

impl<NID: NodeId> RaftState<NID> {
    /// The end of the log.
    pub open spec fn end_of_log(self) -> Option<LogId<NID>> {
        let ids = self.log_ids.key_log_ids@;
        if ids.len() == 0 {
            None
        } else {
            Some(ids.last())
        }
    }

    /// The vote is for node `id`, which is a member.
    pub open spec fn leading(self, id: NID) -> bool {
        self.membership_state.effective.membership.member(id) && self.vote.vote.leader_id.node_id
            == id
    }

    /// The vote is for node `id`, and a quorum granted it.
    pub open spec fn leads(self, id: NID) -> bool {
        self.leading(id) && self.vote.vote.committed
    }

    /// The role that the vote and the membership give node `id`.
    pub open spec fn role(self, id: NID) -> ServerState {
        if self.leads(id) {
            ServerState::Leader
        } else if self.leading(id) {
            ServerState::Candidate
        } else if self.membership_state.effective.membership.voter(id) {
            ServerState::Follower
        } else {
            ServerState::Learner
        }
    }

    /// The node to which a request for the leader is forwarded: the one that
    /// the committed vote is for, if it is a member.
    pub open spec fn known_leader(self) -> Option<NID> {
        let node = self.vote.vote.leader_id.node_id;
        if self.vote.vote.committed && self.membership_state.effective.membership.member(node) {
            Some(node)
        } else {
            None
        }
    }

    pub fn vote_ref(&self) -> (r: &Vote<NID>)
        ensures
            *r == self.vote.vote,
    {
        &self.vote.vote
    }

    /// When the vote was last taken or confirmed.
    pub fn vote_last_modified(&self) -> (r: Option<Instant>)
        ensures
            r == self.vote.last_update,
    {
        self.vote.last_update
    }

    /// The end of the log.
    pub fn last_log_id(&self) -> (r: Option<&LogId<NID>>)
        ensures
            owned_log_id(r) == self.end_of_log(),
    {
        let n: usize = self.log_ids.key_log_ids.len();
        if n == 0 {
            None
        } else {
            Some(&self.log_ids.key_log_ids[n - 1])
        }
    }

    /// The last entry that the state machine has applied.
    pub fn io_applied(&self) -> (r: Option<&LogId<NID>>)
        ensures
            owned_log_id(r) == self.io_state.applied,
    {
        self.io_state.applied.as_ref()
    }

    /// Whether the vote is for node `id`, which is a member.
    pub fn is_leading(&self, id: &NID) -> (r: bool)
        ensures
            r == self.leading(*id),
    {
        self.membership_state.effective.membership.contains(id) && self.vote.vote.leader_id.node_id.same(
            id,
        )
    }

    /// Whether the vote is for node `id`, and a quorum granted it.
    pub fn is_leader(&self, id: &NID) -> (r: bool)
        ensures
            r == self.leads(*id),
    {
        self.is_leading(id) && self.vote.vote.committed
    }

    /// The role that the vote and the membership give node `id`.
    pub fn calc_server_state(&self, id: &NID) -> (r: ServerState)
        ensures
            r == self.role(*id),
    {
        if self.is_leader(id) {
            ServerState::Leader
        } else if self.is_leading(id) {
            ServerState::Candidate
        } else if self.membership_state.effective.membership.is_voter(id) {
            ServerState::Follower
        } else {
            ServerState::Learner
        }
    }

    /// The node to which a request for the leader is forwarded.
    pub fn forward_to_leader(&self) -> (r: Option<NID>)
        ensures
            r == self.known_leader(),
    {
        let node = &self.vote.vote.leader_id.node_id;
        if self.vote.vote.committed && self.membership_state.effective.membership.contains(node) {
            Some(node.dup())
        } else {
            None
        }
    }
}

/// The lease of a vote runs from when it is taken until its time is over, to
/// the millisecond, and never after it was released.
pub proof fn law_lease_runs_for_its_time<NID: NodeId>(
    vote: Vote<NID>,
    since: Instant,
    now: Instant,
    lease: u64,
)
    requires
        since <= now,
    ensures
        LeasedVote::taken(since, vote).vote == vote,
        LeasedVote::taken(since, vote).last_update == Some(since),
        !LeasedVote::taken(since, vote).lease_disabled,
        LeasedVote::taken(since, vote).leased(now, lease) <==> now - since <= lease,
        !(LeasedVote { lease_disabled: true, ..LeasedVote::taken(since, vote) }).leased(now, lease),
        !(LeasedVote { last_update: None, ..LeasedVote::taken(since, vote) }).leased(now, lease),
{
}

/// Confirming a vote moves its lease, unless the lease was released.
pub proof fn law_confirmed_vote_renews_its_lease<NID: NodeId>(
    vote: LeasedVote<NID>,
    since: Instant,
    now: Instant,
    lease: u64,
)
    requires
        since <= now,
    ensures
        (LeasedVote { last_update: Some(since), ..vote }).leased(now, lease) <==> !vote.lease_disabled
            && now - since <= lease,
{
}

/// The end of the log is the last log id, and there is none without log ids.
pub proof fn law_log_ends_with_its_last_id<NID: NodeId>(state: RaftState<NID>)
    ensures
        state.log_ids.key_log_ids@.len() == 0 ==> state.end_of_log() is None,
        state.log_ids.key_log_ids@.len() > 0 ==> state.end_of_log() == Some(
            state.log_ids.key_log_ids@[state.log_ids.key_log_ids@.len() - 1],
        ),
{
}

/// A member that holds a vote for itself leads if the vote is committed, and
/// campaigns if not. Any other voter follows, and any other node learns.
pub proof fn law_role_goes_by_vote_and_membership<NID: NodeId>(state: RaftState<NID>, id: NID)
    ensures
        ({
            let membership = state.membership_state.effective.membership;
            let own = state.vote.vote.leader_id.node_id == id;
            let committed = state.vote.vote.committed;
            &&& membership.member(id) && own && committed ==> state.role(id) is Leader
                && state.leads(id) && state.leading(id)
            &&& membership.member(id) && own && !committed ==> state.role(id) is Candidate
                && !state.leads(id) && state.leading(id)
            &&& !own || !membership.member(id) ==> !state.leads(id) && !state.leading(id) && (
            if membership.voter(id) {
                state.role(id) is Follower
            } else {
                state.role(id) is Learner
            })
        }),
{
}

/// Requests are forwarded to the node that the committed vote is for, as long
/// as it is a member, and to nobody under a vote that is not committed.
pub proof fn law_requests_go_to_the_committed_leader<NID: NodeId>(state: RaftState<NID>)
    ensures
        ({
            let leader = state.vote.vote.leader_id.node_id;
            let member = state.membership_state.effective.membership.member(leader);
            &&& !state.vote.vote.committed ==> state.known_leader() is None
            &&& !member ==> state.known_leader() is None
            &&& state.vote.vote.committed && member ==> state.known_leader() == Some(leader)
        }),
{
}

} // verus!
