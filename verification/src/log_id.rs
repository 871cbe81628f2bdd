//! Log ids: the leadership that proposed an entry, and the entry's position.

use crate::type_config::NodeId;
use crate::vote::{
    law_later_terms_come_first_in_leaderships, lemma_leader_order, CommittedLeaderId,
};
use vstd::prelude::*;

verus! {

/// Identifies a log entry.
#[derive(Debug)]
pub struct LogId<NID: NodeId> {
    pub leader_id: CommittedLeaderId<NID>,
    pub index: u64,
}

impl<NID: NodeId> LogId<NID> {
    pub fn new(leader_id: CommittedLeaderId<NID>, index: u64) -> (r: Self)
        ensures
            r == (LogId { leader_id, index }),
    {
        LogId { leader_id, index }
    }

    /// Log ids are ordered by leadership, and within a leadership by index.
    pub open spec fn before(self, other: Self) -> bool {
        self.leader_id.before(other.leader_id) || (self.leader_id == other.leader_id && self.index
            < other.index)
    }

    /// Whether `self` comes before `other`.
    pub fn precedes(&self, other: &Self) -> (r: bool)
        ensures
            r == self.before(*other),
    {
        self.leader_id.precedes(&other.leader_id) || (self.leader_id == other.leader_id
            && self.index < other.index)
    }
}

/// The order of log ids is strict and total.
pub proof fn lemma_log_id_order<NID: NodeId>(a: LogId<NID>, b: LogId<NID>, c: LogId<NID>)
    ensures
        !a.before(a),
        a.before(b) && b.before(c) ==> a.before(c),
        a.before(b) || a == b || b.before(a),
{
    lemma_leader_order(a.leader_id, b.leader_id, c.leader_id);
}

/// The order of log positions, where no log id at all comes first.
pub open spec fn log_before<NID: NodeId>(a: Option<LogId<NID>>, b: Option<LogId<NID>>) -> bool {
    match (a, b) {
        (_, None) => false,
        (None, Some(_)) => true,
        (Some(a), Some(b)) => a.before(b),
    }
}

/// Whether the position `a` comes before the position `b`.
pub fn log_precedes<NID: NodeId>(a: Option<&LogId<NID>>, b: Option<&LogId<NID>>) -> (r: bool)
    ensures
        r == log_before(owned_log_id(a), owned_log_id(b)),
{
    match (a, b) {
        (_, None) => false,
        (None, Some(_)) => true,
        (Some(a), Some(b)) => a.precedes(b),
    }
}

/// The optional log id that an optional reference stands for.
pub open spec fn owned_log_id<NID: NodeId>(id: Option<&LogId<NID>>) -> Option<LogId<NID>> {
    match id {
        Some(id) => Some(*id),
        None => None,
    }
}

/// A copy of the log id behind an optional reference.
pub fn copied<NID: NodeId>(id: Option<&LogId<NID>>) -> (r: Option<LogId<NID>>)
    ensures
        r == owned_log_id(id),
{
    match id {
        Some(id) => Some(id.clone()),
        None => None,
    }
}

/// A copy of an optional log id.
pub fn dup_log_id<NID: NodeId>(id: &Option<LogId<NID>>) -> (r: Option<LogId<NID>>)
    ensures
        r == *id,
{
    match id {
        Some(id) => Some(id.clone()),
        None => None,
    }
}

impl<NID: NodeId> Clone for LogId<NID> {
    fn clone(&self) -> (r: Self)
        ensures
            r == *self,
    {
        LogId { leader_id: self.leader_id.clone(), index: self.index }
    }
}

impl<NID: NodeId> PartialEq for LogId<NID> {
    fn eq(&self, other: &Self) -> (r: bool) {
        self.leader_id == other.leader_id && self.index == other.index
    }
}

impl<NID: NodeId> vstd::std_specs::cmp::PartialEqSpecImpl for LogId<NID> {
    open spec fn obeys_eq_spec() -> bool {
        true
    }

    open spec fn eq_spec(&self, other: &Self) -> bool {
        *self == *other
    }
}

impl<NID: NodeId> Eq for LogId<NID> {

}

/// A log id of a later leadership is greater than any of an earlier one, at
/// whatever index; within a leadership the later index is greater.
pub proof fn law_log_ids_go_by_leadership_then_index<NID: NodeId>(a: LogId<NID>, b: LogId<NID>)
    ensures
        a.leader_id.term < b.leader_id.term ==> a.before(b) && !b.before(a),
        a.leader_id.term == b.leader_id.term && a.leader_id.node_id.before(b.leader_id.node_id)
            ==> a.before(b) && !b.before(a),
        a.leader_id == b.leader_id && a.index < b.index ==> a.before(b) && !b.before(a),
        a == b ==> !a.before(b),
{
    law_later_terms_come_first_in_leaderships(a.leader_id, b.leader_id);
    lemma_log_id_order(a, b, a);
}

/// An empty log comes before every log that is not empty, and no log comes
/// before an empty one; other logs compare by their last log ids.
pub proof fn law_empty_log_comes_first<NID: NodeId>(a: Option<LogId<NID>>, b: LogId<NID>)
    ensures
        log_before(None, Some(b)),
        !log_before(a, None),
        log_before(a, Some(b)) || a == Some(b) || log_before(Some(b), a),
        !(log_before(a, Some(b)) && log_before(Some(b), a)),
        a is Some && a->0.before(b) ==> log_before(a, Some(b)),
        owned_log_id(Some(&b)) == Some(b),
        owned_log_id::<NID>(None) is None,
{
    if let Some(a) = a {
        lemma_log_id_order(a, b, a);
    }
}

} // verus!
