//! The messages of an election.

use crate::log_id::LogId;
use crate::type_config::NodeId;
use crate::vote::Vote;
use vstd::prelude::*;

verus! {

/// A candidate asks for a vote.
#[derive(Clone, Debug, PartialEq, Eq)]
pub struct VoteRequest<NID: NodeId> {
    pub vote: Vote<NID>,
    pub last_log_id: Option<LogId<NID>>,
}

impl<NID: NodeId> VoteRequest<NID> {
    pub fn new(vote: Vote<NID>, last_log_id: Option<LogId<NID>>) -> (r: Self)
        ensures
            r == (VoteRequest { vote, last_log_id }),
    {
        VoteRequest { vote, last_log_id }
    }
}

/// A voter's answer, with the vote and the last log id that it holds.
#[derive(Clone, Debug, PartialEq, Eq)]
pub struct VoteResponse<NID: NodeId> {
    pub vote: Vote<NID>,
    pub vote_granted: bool,
    pub last_log_id: Option<LogId<NID>>,
}

impl<NID: NodeId> VoteResponse<NID> {
    pub fn new(vote: Vote<NID>, last_log_id: Option<LogId<NID>>, vote_granted: bool) -> (r: Self)
        ensures
            r == (VoteResponse { vote, vote_granted, last_log_id }),
    {
        VoteResponse { vote, vote_granted, last_log_id }
    }
}

} // verus!
