//! The application's choices: what identifies a node, and what an entry, a
//! snapshot and a reply carry.

use vstd::prelude::*;

verus! {

/// What identifies a node: values that can be compared, ordered and copied.
///
/// `before` is the order of the identifiers. It breaks ties between votes and
/// log ids of the same term, so it has to be a strict total order.
pub trait NodeId: Sized + Clone + Eq + core::fmt::Debug {
    /// The strict order of the identifiers.
    spec fn before(self, other: Self) -> bool;

    /// `before` is irreflexive, transitive and total.
    proof fn lemma_before_is_strict_total_order(a: Self, b: Self, c: Self)
        ensures
            !a.before(a),
            a.before(b) && b.before(c) ==> a.before(c),
            a.before(b) || a == b || b.before(a),
    ;

    /// Whether both identify the same node.
    fn same(&self, other: &Self) -> (r: bool)
        ensures
            r == (*self == *other),
    ;

    /// Whether `self` comes before `other`.
    fn precedes(&self, other: &Self) -> (r: bool)
        ensures
            r == self.before(*other),
    ;

    /// A copy of the identifier.
    fn dup(&self) -> (r: Self)
        ensures
            r == *self,
    ;
}

impl NodeId for u64 {
    open spec fn before(self, other: u64) -> bool {
        self < other
    }

    proof fn lemma_before_is_strict_total_order(a: u64, b: u64, c: u64) {
    }

    fn same(&self, other: &u64) -> (r: bool) {
        *self == *other
    }

    fn precedes(&self, other: &u64) -> (r: bool) {
        *self < *other
    }

    fn dup(&self) -> (r: u64) {
        *self
    }
}

/// The types that an application plugs into the engine.
pub trait RaftTypeConfig: Sized {
    /// What identifies a node.
    type NodeId: NodeId;

    /// What an application puts into a log entry.
    type D: PartialEq + core::fmt::Debug;

    /// What a snapshot holds.
    type SnapshotData: PartialEq + core::fmt::Debug;

    /// What a caller is answered.
    type Reply: PartialEq + core::fmt::Debug;

    /// By what the runtime finds the caller that waits for an answer.
    type ReplySender: PartialEq + core::fmt::Debug;
}

/// Whether `ids` holds `id`.
pub fn contains_id<NID: NodeId>(ids: &Vec<NID>, id: &NID) -> (r: bool)
    ensures
        r == ids@.contains(*id),
{
    let mut i: usize = 0;
    while i < ids.len()
        invariant
            i <= ids.len(),
            forall|j: int| 0 <= j < i ==> ids@[j] != *id,
        decreases ids.len() - i,
    {
        if ids[i].same(id) {
            return true;
        }
        i += 1;
    }
    false
}

/// A copy of a list of identifiers.
pub fn dup_ids<NID: NodeId>(ids: &Vec<NID>) -> (r: Vec<NID>)
    ensures
        r@ == ids@,
{
    let mut r: Vec<NID> = Vec::new();
    let mut i: usize = 0;
    while i < ids.len()
        invariant
            i <= ids.len(),
            r@ == ids@.take(i as int),
        decreases ids.len() - i,
    {
        r.push(ids[i].dup());
        i += 1;
        assert(r@ == ids@.take(i as int));
    }
    assert(ids@.take(i as int) == ids@);
    r
}

/// Identifiers that are numbers are ordered as the numbers are.
pub proof fn law_numbers_are_ordered_by_size(small: u64, large: u64)
    requires
        small < large,
    ensures
        small.before(large),
        !large.before(small),
        !small.before(small),
{
}

} // verus!
