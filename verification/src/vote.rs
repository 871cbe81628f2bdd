//! Votes: which node a term belongs to, and whether a quorum granted it.

use crate::type_config::NodeId;
use vstd::prelude::*;

verus! {

/// The leadership of one node in one term.
#[derive(Debug)]
pub struct LeaderId<NID: NodeId> {
    pub term: u64,
    pub node_id: NID,
}

/// The leadership under which a log entry was proposed.
pub type CommittedLeaderId<NID> = LeaderId<NID>;

impl<NID: NodeId> LeaderId<NID> {
    pub fn new(term: u64, node_id: NID) -> (r: Self)
        ensures
            r == (LeaderId { term, node_id }),
    {
        LeaderId { term, node_id }
    }

    /// Leaderships are ordered by term, and within a term by node.
    pub open spec fn before(self, other: Self) -> bool {
        self.term < other.term || (self.term == other.term && self.node_id.before(other.node_id))
    }

    /// Whether `self` comes before `other`.
    pub fn precedes(&self, other: &Self) -> (r: bool)
        ensures
            r == self.before(*other),
    {
        self.term < other.term || (self.term == other.term && self.node_id.precedes(&other.node_id))
    }

    /// The node that the vote is for.
    pub fn voted_for(&self) -> (r: Option<NID>)
        ensures
            r == Some(self.node_id),
    {
        Some(self.node_id.dup())
    }
}

/// The order of leaderships is strict and total.
pub proof fn lemma_leader_order<NID: NodeId>(a: LeaderId<NID>, b: LeaderId<NID>, c: LeaderId<NID>)
    ensures
        !a.before(a),
        a.before(b) && b.before(c) ==> a.before(c),
        a.before(b) || a == b || b.before(a),
{
    NID::lemma_before_is_strict_total_order(a.node_id, b.node_id, c.node_id);
}

impl<NID: NodeId> Clone for LeaderId<NID> {
    fn clone(&self) -> (r: Self)
        ensures
            r == *self,
    {
        LeaderId { term: self.term, node_id: self.node_id.dup() }
    }
}

impl<NID: NodeId> PartialEq for LeaderId<NID> {
    fn eq(&self, other: &Self) -> (r: bool) {
        self.term == other.term && self.node_id.same(&other.node_id)
    }
}

impl<NID: NodeId> vstd::std_specs::cmp::PartialEqSpecImpl for LeaderId<NID> {
    open spec fn obeys_eq_spec() -> bool {
        true
    }

    open spec fn eq_spec(&self, other: &Self) -> bool {
        *self == *other
    }
}

impl<NID: NodeId> Eq for LeaderId<NID> {

}

/// A vote for a leadership, committed once a quorum granted it.
#[derive(Debug)]
pub struct Vote<NID: NodeId> {
    pub leader_id: LeaderId<NID>,
    pub committed: bool,
}

impl<NID: NodeId> Vote<NID> {
    /// A vote that no quorum has granted yet.
    pub fn new(term: u64, node_id: NID) -> (r: Self)
        ensures
            r == (Vote { leader_id: LeaderId { term, node_id }, committed: false }),
    {
        Vote { leader_id: LeaderId::new(term, node_id), committed: false }
    }

    /// A vote that a quorum has granted.
    pub fn new_committed(term: u64, node_id: NID) -> (r: Self)
        ensures
            r == (Vote { leader_id: LeaderId { term, node_id }, committed: true }),
    {
        Vote { leader_id: LeaderId::new(term, node_id), committed: true }
    }

    pub fn leader_id(&self) -> (r: &LeaderId<NID>)
        ensures
            *r == self.leader_id,
    {
        &self.leader_id
    }

    pub fn is_committed(&self) -> (r: bool)
        ensures
            r == self.committed,
    {
        self.committed
    }

    /// Votes are ordered by leadership; for one leadership the committed vote
    /// is the greater one.
    pub open spec fn before(self, other: Self) -> bool {
        self.leader_id.before(other.leader_id) || (self.leader_id == other.leader_id
            && !self.committed && other.committed)
    }

    /// Whether `self` is a smaller vote than `other`.
    pub fn precedes(&self, other: &Self) -> (r: bool)
        ensures
            r == self.before(*other),
    {
        self.leader_id.precedes(&other.leader_id) || (self.leader_id == other.leader_id
            && !self.committed && other.committed)
    }
}

/// The order of votes is strict and total.
pub proof fn lemma_vote_order<NID: NodeId>(a: Vote<NID>, b: Vote<NID>, c: Vote<NID>)
    ensures
        !a.before(a),
        a.before(b) && b.before(c) ==> a.before(c),
        a.before(b) || a == b || b.before(a),
{
    lemma_leader_order(a.leader_id, b.leader_id, c.leader_id);
}

impl<NID: NodeId> Clone for Vote<NID> {
    fn clone(&self) -> (r: Self)
        ensures
            r == *self,
    {
        Vote { leader_id: self.leader_id.clone(), committed: self.committed }
    }
}

impl<NID: NodeId> PartialEq for Vote<NID> {
    fn eq(&self, other: &Self) -> (r: bool) {
        self.leader_id == other.leader_id && self.committed == other.committed
    }
}

impl<NID: NodeId> vstd::std_specs::cmp::PartialEqSpecImpl for Vote<NID> {
    open spec fn obeys_eq_spec() -> bool {
        true
    }

    open spec fn eq_spec(&self, other: &Self) -> bool {
        *self == *other
    }
}

impl<NID: NodeId> Eq for Vote<NID> {

}

/// A leadership of a later term is the greater one, whichever nodes it and the
/// other are of; within a term the greater node's is.
pub proof fn law_later_terms_come_first_in_leaderships<NID: NodeId>(
    a: LeaderId<NID>,
    b: LeaderId<NID>,
)
    ensures
        a.term < b.term ==> a.before(b) && !b.before(a),
        a.term == b.term && a.node_id.before(b.node_id) ==> a.before(b) && !b.before(a),
        a.term == b.term && a.node_id == b.node_id ==> !a.before(b),
{
    lemma_leader_order(a, b, a);
    NID::lemma_before_is_strict_total_order(a.node_id, b.node_id, a.node_id);
}

/// A vote of a later term is greater than any of an earlier one, committed or
/// not; within a term the vote for the greater node is greater; and of two
/// votes for one node in one term the committed one is greater.
pub proof fn law_votes_go_by_term_then_node_then_commitment<NID: NodeId>(
    a: Vote<NID>,
    b: Vote<NID>,
)
    ensures
        a.leader_id.term < b.leader_id.term ==> a.before(b) && !b.before(a),
        a.leader_id.term == b.leader_id.term && a.leader_id.node_id.before(b.leader_id.node_id)
            ==> a.before(b) && !b.before(a),
        a.leader_id == b.leader_id && !a.committed && b.committed ==> a.before(b) && !b.before(a),
        a == b ==> !a.before(b),
{
    law_later_terms_come_first_in_leaderships(a.leader_id, b.leader_id);
    lemma_vote_order(a, b, a);
}

} // verus!
