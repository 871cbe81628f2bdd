//! Planned handoff uses the engine's normal election and persistence path.

use crate::engine::{CampaignStart, Engine, EngineView};
use crate::leadership::Leader;
use crate::log_id::{dup_log_id, log_before, log_precedes};
use crate::raft_state::{LeasedVote, RaftState};
use crate::transfer_leader::{dup_request, TransferLeaderError, TransferLeaderRequest};
use crate::type_config::{NodeId, RaftTypeConfig};
use vstd::prelude::*;

verus! {

/// Monotonic, process-local retirement; replication and voting remain available.
#[derive(Debug)]
pub struct PreparedShutdown<NID: NodeId> {
    /// The handoff that this node began as the leader, if it was the leader.
    pub handoff: Option<TransferLeaderRequest<NID>>,
}

impl<C: RaftTypeConfig> EngineView<C> {
    /// Whether `id` is a voter of the membership in use.
    pub open spec fn is_voter(self, id: C::NodeId) -> bool {
        self.state.membership_state.effective.membership.voter(id)
    }

    /// The node leads, under exactly the committed vote that it holds.
    pub open spec fn is_current_leader(self) -> bool {
        self.leader matches Some(leader) && leader.vote.committed && leader.vote == self.vote()
    }

    /// The node prepared for its shutdown without a handoff.
    pub open spec fn retired_without_handoff(self) -> bool {
        self.prepared_shutdown matches Some(prepared) && prepared.handoff is None
    }

    /// The leadership is already being handed to a node other than `to`.
    pub open spec fn transfers_elsewhere(self, to: C::NodeId) -> bool {
        self.leader matches Some(leader) && leader.transfer_to matches Some(target) && target != to
    }

    /// Why the node refuses to hand its leadership to `to`, if it does.
    pub open spec fn begin_refusal(self, to: C::NodeId) -> Option<TransferLeaderError> {
        if self.retired_without_handoff() {
            Some(TransferLeaderError::Retiring)
        } else if !self.is_current_leader() {
            Some(TransferLeaderError::NotLeader)
        } else if !self.state.membership_state.stable() {
            Some(TransferLeaderError::MembershipChanged)
        } else if to == self.id() || !self.is_voter(to) || !self.is_voter(self.id()) {
            Some(TransferLeaderError::InvalidTarget)
        } else if self.transfers_elsewhere(to) {
            Some(TransferLeaderError::TransferInProgress)
        } else {
            None
        }
    }

    /// The request that hands the leadership to `to`: the exact vote, the
    /// exact membership, and everything accepted so far.
    pub open spec fn handoff_to(self, to: C::NodeId) -> TransferLeaderRequest<C::NodeId> {
        TransferLeaderRequest {
            from: self.vote(),
            to,
            last_log_id: self.leader->0.last_log_id,
            membership_log_id: self.state.membership_state.effective.log_id,
        }
    }

    /// The engine with the lease of its vote released, and nothing else.
    pub open spec fn with_lease_released(self) -> Self {
        EngineView {
            state: RaftState {
                vote: LeasedVote { lease_disabled: true, ..self.state.vote },
                ..self.state
            },
            ..self
        }
    }

    /// The engine after it began to hand its leadership to `to`: it admits
    /// nothing more, and its lease no longer blocks the election of another
    /// leader.
    pub open spec fn after_begin(self, to: C::NodeId) -> Self {
        match self.begin_refusal(to) {
            Some(_) => self,
            None => EngineView {
                leader: Some(Leader { transfer_to: Some(to), ..self.leader->0 }),
                ..self.with_lease_released()
            },
        }
    }

    /// What beginning to hand the leadership to `to` returns.
    pub open spec fn begin_result(self, to: C::NodeId) -> Result<
        TransferLeaderRequest<C::NodeId>,
        TransferLeaderError,
    > {
        match self.begin_refusal(to) {
            Some(error) => Err(error),
            None => Ok(self.handoff_to(to)),
        }
    }

    /// What preparing for shutdown returns, `to` being the successor to hand a
    /// leadership to.
    pub open spec fn prepare_result(self, to: Option<C::NodeId>) -> Result<
        Option<TransferLeaderRequest<C::NodeId>>,
        TransferLeaderError,
    > {
        match self.prepared_shutdown {
            Some(prepared) => if prepared.handoff is Some && to is Some && prepared.handoff->0.to
                != to->0 {
                Err(TransferLeaderError::TransferInProgress)
            } else {
                Ok(prepared.handoff)
            },
            None => if self.leader is None {
                Ok(None)
            } else {
                match to {
                    None => Err(TransferLeaderError::InvalidTarget),
                    Some(to) => match self.begin_result(to) {
                        Ok(request) => Ok(Some(request)),
                        Err(error) => Err(error),
                    },
                }
            },
        }
    }

    /// The engine after it was asked to prepare for shutdown. The first time
    /// that succeeds it hands over its leadership, gives up its campaign and
    /// retires; after that nothing changes any more.
    pub open spec fn after_prepare(self, to: Option<C::NodeId>) -> Self {
        match self.prepare_result(to) {
            Err(_) => self,
            Ok(handoff) => if self.retiring() {
                self
            } else {
                let handed = if self.leader is Some {
                    self.after_begin(to->0)
                } else {
                    self
                };
                EngineView {
                    candidate: None,
                    prepared_shutdown: Some(PreparedShutdown { handoff }),
                    ..handed
                }
            },
        }
    }

    /// This node issued the request and stopped admission for it.
    pub open spec fn prepared_for(self, request: TransferLeaderRequest<C::NodeId>) -> bool {
        self.leader matches Some(leader) && leader.vote == request.from && leader.transfer_to
            == Some(request.to)
    }

    /// Why the node refuses a handoff request, if it does.
    pub open spec fn handoff_refusal(self, request: TransferLeaderRequest<C::NodeId>) -> Option<
        TransferLeaderError,
    > {
        let from = request.from.leader_id.node_id;
        if !request.from.committed || request.from != self.vote() {
            Some(TransferLeaderError::VoteChanged)
        } else if !self.state.membership_state.stable()
            || self.state.membership_state.effective.log_id != request.membership_log_id
            || !self.is_voter(from) || !self.is_voter(self.id()) {
            Some(TransferLeaderError::MembershipChanged)
        } else if !self.is_voter(request.to) || from == request.to {
            Some(TransferLeaderError::InvalidTarget)
        } else if from == self.id() && !self.prepared_for(request) {
            Some(TransferLeaderError::NotPrepared)
        } else if request.to == self.id() && self.retiring() {
            Some(TransferLeaderError::Retiring)
        } else if request.to == self.id() && log_before(
            self.state.io_state.applied,
            request.last_log_id,
        ) {
            Some(TransferLeaderError::LogNotApplied)
        } else {
            None
        }
    }

    /// The engine after a handoff request: if it is accepted, the lease of the
    /// retiring vote is released, and the intended successor campaigns.
    pub open spec fn after_handoff(
        self,
        request: TransferLeaderRequest<C::NodeId>,
        start: CampaignStart,
    ) -> Self {
        if self.handoff_refusal(request) is Some {
            self
        } else if request.to == self.id() {
            self.with_lease_released().after_elect(start)
        } else {
            self.with_lease_released()
        }
    }
}

impl<C: RaftTypeConfig> Engine<C> {
    /// Retire this node for the lifetime of the engine. A leader begins to
    /// hand its leadership to `to` and returns the request to deliver; any
    /// other node gives up its campaign and returns none. Asked again, it
    /// returns the same result.
    pub fn prepare_shutdown(&mut self, to: Option<C::NodeId>) -> (r: Result<
        Option<TransferLeaderRequest<C::NodeId>>,
        TransferLeaderError,
    >)
        ensures
            r == old(self)@.prepare_result(to),
            final(self)@ == old(self)@.after_prepare(to),
            r is Err ==> *final(self) == *old(self),
    {
        if let Some(prepared) = &self.prepared_shutdown {
            if let (Some(request), Some(to)) = (&prepared.handoff, &to) {
                if !request.to().same(to) {
                    return Err(TransferLeaderError::TransferInProgress);
                }
            }
            return Ok(dup_request(&prepared.handoff));
        }
        // Decide whether a handoff is needed and stop campaigning in the same
        // turn. A role snapshot followed by disabling election ticks would
        // leave a pending candidate able to win from delayed vote responses.

        let handoff = if self.leader.is_some() {
            match to {
                None => {
                    return Err(TransferLeaderError::InvalidTarget);
                },
                Some(to) => match self.begin_leadership_transfer(to) {
                    Ok(request) => Some(request),
                    Err(error) => {
                        return Err(error);
                    },
                },
            }
        } else {
            None
        };
        self.candidate = None;
        self.prepared_shutdown = Some(PreparedShutdown { handoff: dup_request(&handoff) });
        Ok(handoff)
    }

    /// Stop admitting proposals, reads and heartbeats as the leader, release
    /// the lease of this leadership, and return the request that hands it to
    /// `to`.
    pub fn begin_leadership_transfer(&mut self, to: C::NodeId) -> (r: Result<
        TransferLeaderRequest<C::NodeId>,
        TransferLeaderError,
    >)
        ensures
            r == old(self)@.begin_result(to),
            final(self)@ == old(self)@.after_begin(to),
            r is Err ==> *final(self) == *old(self),
    {
        if let Some(prepared) = &self.prepared_shutdown {
            if prepared.handoff.is_none() {
                return Err(TransferLeaderError::Retiring);
            }
        }
        let leader = match &self.leader {
            Some(leader) => leader,
            None => {
                return Err(TransferLeaderError::NotLeader);
            },
        };
        if !leader.vote.is_committed() || leader.vote != *self.state.vote_ref() {
            return Err(TransferLeaderError::NotLeader);
        }
        let membership = self.state.membership_state.effective();
        if membership.membership().get_joint_config().len() != 1 || *membership.log_id()
            != *self.state.membership_state.committed().log_id() {
            return Err(TransferLeaderError::MembershipChanged);
        }
        if to.same(&self.config.id) || !membership.is_voter(&to) || !membership.is_voter(
            &self.config.id,
        ) {
            return Err(TransferLeaderError::InvalidTarget);
        }
        if let Some(target) = &leader.transfer_to {
            if !target.same(&to) {
                return Err(TransferLeaderError::TransferInProgress);
            }
        }
        let request = TransferLeaderRequest {
            from: leader.vote.clone(),
            to: to.dup(),
            last_log_id: dup_log_id(&leader.last_log_id),
            membership_log_id: dup_log_id(membership.log_id()),
        };
        // Stop new proposals, reads and heartbeats before releasing this
        // vote's election lease. Existing replication and accepted writes
        // continue; the target cannot campaign until this prefix is applied.
        if let Some(leader) = self.leader.take() {
            self.leader = Some(Leader { transfer_to: Some(to), ..leader });
        }
        self.state.vote.disable_lease();
        Ok(request)
    }

    /// Accept a handoff from the leader whose vote this node holds: release
    /// the lease of exactly that vote, and campaign if this node is the
    /// intended successor.
    ///
    /// `start` is what the campaign starts with, if there is one.
    pub fn handle_leadership_transfer(
        &mut self,
        request: TransferLeaderRequest<C::NodeId>,
        start: CampaignStart,
    ) -> (r: Result<(), TransferLeaderError>)
        requires
            old(self)@.handoff_refusal(request) is None && request.to == old(self)@.id() ==> old(
                self,
            )@.can_campaign(),
        ensures
            match old(self)@.handoff_refusal(request) {
                Some(error) => r == Err::<(), _>(error) && *final(self) == *old(self),
                None => r is Ok,
            },
            final(self)@ == old(self)@.after_handoff(request, start),
            r is Ok && request.to == old(self)@.id() ==> final(self).config.in_range(),
    {
        if !request.from.is_committed() || request.from != *self.state.vote_ref() {
            return Err(TransferLeaderError::VoteChanged);
        }
        let membership = self.state.membership_state.effective();
        if membership.membership().get_joint_config().len() != 1 || *membership.log_id()
            != *self.state.membership_state.committed().log_id() || *membership.log_id()
            != request.membership_log_id {
            return Err(TransferLeaderError::MembershipChanged);
        }
        let from_is_voter = match &request.from.leader_id().voted_for() {
            Some(from) => membership.is_voter(from),
            None => false,
        };
        if !from_is_voter || !membership.is_voter(&self.config.id) {
            return Err(TransferLeaderError::MembershipChanged);
        }
        let from = &request.from.leader_id().node_id;
        if !membership.is_voter(&request.to) || from.same(&request.to) {
            return Err(TransferLeaderError::InvalidTarget);
        }
        if from.same(&self.config.id) && !self.has_prepared(&request) {
            return Err(TransferLeaderError::NotPrepared);
        }
        let is_target = self.config.id.same(&request.to);
        if is_target {
            if self.prepared_shutdown.is_some() {
                return Err(TransferLeaderError::Retiring);
            }
            if log_precedes(self.state.io_applied(), request.last_log_id()) {
                return Err(TransferLeaderError::LogNotApplied);
            }
        }
        // Preserve the vote timestamp used for the ordinary election timer.
        // Only the exact retiring vote's lease is released. An in-flight old
        // heartbeat cannot re-arm it; a new vote gets a fresh ordinary lease.

        self.state.vote.disable_lease();
        if is_target {
            self.elect(start);
        }
        Ok(())
    }

    /// Whether this node issued the request and stopped admission for it.
    fn has_prepared(&self, request: &TransferLeaderRequest<C::NodeId>) -> (r: bool)
        ensures
            r == self@.prepared_for(*request),
    {
        match &self.leader {
            None => false,
            Some(leader) => leader.vote == request.from && match &leader.transfer_to {
                Some(target) => target.same(&request.to),
                None => false,
            },
        }
    }
}

} // verus!
