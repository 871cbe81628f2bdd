//! An engine-issued request for a planned leadership handoff.

use crate::log_id::{dup_log_id, owned_log_id, LogId};
use crate::type_config::NodeId;
use crate::vote::Vote;
use vstd::prelude::*;

verus! {

/// A planned handoff bound to one committed leader vote and membership.
///
/// Created by `Engine::begin_leadership_transfer`. The application must
/// authenticate delivery as the node named by `from`, using its ordinary
/// consensus transport. This request does not change membership or authorize
/// any application write. Acceptance is not evidence that a successor won an
/// election; observe fresh successor leadership before stopping the old voter.
#[derive(Debug, PartialEq, Eq)]
pub struct TransferLeaderRequest<NID: NodeId> {
    pub from: Vote<NID>,
    pub to: NID,
    pub last_log_id: Option<LogId<NID>>,
    pub membership_log_id: Option<LogId<NID>>,
}

impl<NID: NodeId> TransferLeaderRequest<NID> {
    /// The committed vote of the leader that stopped admitting proposals.
    pub fn from(&self) -> (r: &Vote<NID>)
        ensures
            *r == self.from,
    {
        &self.from
    }

    /// The intended successor, which must be a voter in the exact membership.
    pub fn to(&self) -> (r: &NID)
        ensures
            *r == self.to,
    {
        &self.to
    }

    /// The log prefix the successor must have applied before campaigning.
    pub fn last_log_id(&self) -> (r: Option<&LogId<NID>>)
        ensures
            owned_log_id(r) == self.last_log_id,
    {
        self.last_log_id.as_ref()
    }

    /// The stable membership under which the handoff was initiated.
    pub fn membership_log_id(&self) -> (r: Option<&LogId<NID>>)
        ensures
            owned_log_id(r) == self.membership_log_id,
    {
        self.membership_log_id.as_ref()
    }
}

impl<NID: NodeId> Clone for TransferLeaderRequest<NID> {
    fn clone(&self) -> (r: Self)
        ensures
            r == *self,
    {
        TransferLeaderRequest {
            from: self.from.clone(),
            to: self.to.dup(),
            last_log_id: dup_log_id(&self.last_log_id),
            membership_log_id: dup_log_id(&self.membership_log_id),
        }
    }
}

/// A copy of an optional request.
pub fn dup_request<NID: NodeId>(request: &Option<TransferLeaderRequest<NID>>) -> (r: Option<
    TransferLeaderRequest<NID>,
>)
    ensures
        r == *request,
{
    match request {
        Some(request) => Some(request.clone()),
        None => None,
    }
}

/// A non-fatal refusal to initiate or accept a planned leadership handoff.
///
/// Every refusal leaves the local vote, lease, membership and log unchanged.
#[derive(Clone, Copy, Debug, PartialEq, Eq, Structural)]
pub enum TransferLeaderError {
    /// The initiator is not the current committed leader.
    NotLeader,
    /// Delivery to the issuing leader cannot release a lease before admission stops.
    NotPrepared,
    /// The target is this leader, absent, or not a voter.
    InvalidTarget,
    /// A different handoff has already stopped admission in this term.
    TransferInProgress,
    /// The membership is joint, uncommitted, or differs from the request.
    MembershipChanged,
    /// The request is not bound to the receiver's exact committed vote.
    VoteChanged,
    /// The intended successor has not applied the required log prefix.
    LogNotApplied,
    /// The intended successor has already prepared for its own shutdown.
    Retiring,
}

impl TransferLeaderError {
    /// What the refusal says to a human reader.
    pub open spec fn text(self) -> Seq<char> {
        match self {
            TransferLeaderError::NotLeader => "leadership transfer requires the current leader"@,
            TransferLeaderError::NotPrepared => "leadership transfer has not stopped leader admission"@,
            TransferLeaderError::InvalidTarget => "leadership transfer target is not an eligible voter"@,
            TransferLeaderError::TransferInProgress => "leadership transfer is already in progress"@,
            TransferLeaderError::MembershipChanged => "leadership transfer membership is not stable and exact"@,
            TransferLeaderError::VoteChanged => "leadership transfer vote is not current"@,
            TransferLeaderError::LogNotApplied => "leadership transfer target has not applied the required log"@,
            TransferLeaderError::Retiring => "leadership transfer target is retiring"@,
        }
    }

    /// What the refusal says to a human reader.
    pub fn message(&self) -> (r: &'static str)
        ensures
            r@ == self.text(),
    {
        match self {
            TransferLeaderError::NotLeader => "leadership transfer requires the current leader",
            TransferLeaderError::NotPrepared => "leadership transfer has not stopped leader admission",
            TransferLeaderError::InvalidTarget => "leadership transfer target is not an eligible voter",
            TransferLeaderError::TransferInProgress => "leadership transfer is already in progress",
            TransferLeaderError::MembershipChanged => "leadership transfer membership is not stable and exact",
            TransferLeaderError::VoteChanged => "leadership transfer vote is not current",
            TransferLeaderError::LogNotApplied => "leadership transfer target has not applied the required log",
            TransferLeaderError::Retiring => "leadership transfer target is retiring",
        }
    }
}

} // verus!
