//! Cluster membership: the voters of a simple or joint configuration, and the
//! learners.

use crate::log_id::LogId;
use crate::type_config::{contains_id, dup_ids, NodeId};
use vstd::prelude::*;

verus! {

/// The members of a cluster.
///
/// `configs` holds one list of voters, or, while the membership is changing,
/// the voters before and after the change: a joint configuration.
#[derive(Clone, Debug, PartialEq, Eq)]
pub struct Membership<NID: NodeId> {
    pub configs: Vec<Vec<NID>>,
    pub learners: Vec<NID>,
}

/// The voter lists as sequences.
pub open spec fn config_views<NID: NodeId>(configs: Seq<Vec<NID>>) -> Seq<Seq<NID>> {
    Seq::new(configs.len(), |i: int| configs[i]@)
}

/// `unique` holds what `ids` holds, each identifier once.
pub open spec fn is_unique_copy<NID: NodeId>(unique: Seq<NID>, ids: Seq<NID>) -> bool {
    &&& unique.no_duplicates()
    &&& forall|id: NID| #[trigger] unique.contains(id) <==> ids.contains(id)
}

/// Keep the first occurrence of each identifier.
fn unique_ids<NID: NodeId>(ids: &Vec<NID>) -> (r: Vec<NID>)
    ensures
        is_unique_copy(r@, ids@),
{
    let mut r: Vec<NID> = Vec::new();
    let mut i: usize = 0;
    while i < ids.len()
        invariant
            i <= ids.len(),
            is_unique_copy(r@, ids@.take(i as int)),
        decreases ids.len() - i,
    {
        let ghost before = r@;
        let ghost seen = ids@.take(i as int);
        if !contains_id(&r, &ids[i]) {
            r.push(ids[i].dup());
        }
        assert(ids@.take(i + 1) == seen.push(ids@[i as int]));
        assert forall|id: NID| #[trigger] r@.contains(id) <==> seen.push(
            ids@[i as int],
        ).contains(id) by {
            lemma_push_contains(seen, ids@[i as int], id);
            lemma_push_contains(before, ids@[i as int], id);
            assert(before.contains(id) <==> seen.contains(id));
        }
        i += 1;
    }
    assert(ids@.take(i as int) == ids@);
    r
}

proof fn lemma_push_contains<A>(s: Seq<A>, a: A, x: A)
    ensures
        s.push(a).contains(x) <==> s.contains(x) || x == a,
{
    let t = s.push(a);
    if s.contains(x) {
        let i = choose|i: int| 0 <= i < s.len() && s[i] == x;
        assert(t[i] == x);
    }
    if x == a {
        assert(t[s.len() as int] == x);
    }
}

impl<NID: NodeId> Membership<NID> {
    /// A membership with these voter lists, and with `learners` beside them.
    /// A node that is listed twice in one list counts once.
    pub fn new(configs: Vec<Vec<NID>>, learners: Vec<NID>) -> (r: Self)
        ensures
            r.configs@.len() == configs@.len(),
            forall|i: int|
                0 <= i < configs@.len() ==> is_unique_copy((#[trigger] r.configs@[i])@, configs@[i]@),
            is_unique_copy(r.learners@, learners@),
    {
        let mut lists: Vec<Vec<NID>> = Vec::new();
        let mut i: usize = 0;
        while i < configs.len()
            invariant
                i <= configs.len(),
                lists@.len() == i,
                forall|j: int|
                    0 <= j < i ==> is_unique_copy((#[trigger] lists@[j])@, configs@[j]@),
            decreases configs.len() - i,
        {
            lists.push(unique_ids(&configs[i]));
            i += 1;
        }
        Membership { configs: lists, learners: unique_ids(&learners) }
    }

    /// Whether a node is a voter: listed in some voter list.
    pub open spec fn voter(self, id: NID) -> bool {
        exists|i: int| 0 <= i < self.configs@.len() && (#[trigger] self.configs@[i])@.contains(id)
    }

    /// Whether a node is a member: a voter or a learner.
    pub open spec fn member(self, id: NID) -> bool {
        self.voter(id) || self.learners@.contains(id)
    }

    /// The voter lists: one, or more while the membership is changing.
    pub fn get_joint_config(&self) -> (r: &Vec<Vec<NID>>)
        ensures
            *r == self.configs,
    {
        &self.configs
    }

    /// Whether `id` is a voter.
    pub fn is_voter(&self, id: &NID) -> (r: bool)
        ensures
            r == self.voter(*id),
    {
        let mut i: usize = 0;
        while i < self.configs.len()
            invariant
                i <= self.configs.len(),
                forall|j: int| 0 <= j < i ==> !(#[trigger] self.configs@[j])@.contains(*id),
            decreases self.configs.len() - i,
        {
            if contains_id(&self.configs[i], id) {
                return true;
            }
            i += 1;
        }
        false
    }

    /// Whether `id` is a voter or a learner.
    pub fn contains(&self, id: &NID) -> (r: bool)
        ensures
            r == self.member(*id),
    {
        self.is_voter(id) || contains_id(&self.learners, id)
    }

    /// A copy of the voter lists, against which a campaign counts its grants.
    pub fn to_quorum_set(&self) -> (r: Vec<Vec<NID>>)
        ensures
            config_views(r@) == config_views(self.configs@),
    {
        let mut r: Vec<Vec<NID>> = Vec::new();
        let mut i: usize = 0;
        while i < self.configs.len()
            invariant
                i <= self.configs.len(),
                r@.len() == i,
                forall|j: int| 0 <= j < i ==> (#[trigger] r@[j])@ == self.configs@[j]@,
            decreases self.configs.len() - i,
        {
            r.push(dup_ids(&self.configs[i]));
            i += 1;
        }
        assert(config_views(r@) =~= config_views(self.configs@));
        r
    }
}

/// The membership in use, and the log entry that holds it.
#[derive(Clone, Debug, PartialEq, Eq)]
pub struct EffectiveMembership<NID: NodeId> {
    pub log_id: Option<LogId<NID>>,
    pub membership: Membership<NID>,
}

impl<NID: NodeId> EffectiveMembership<NID> {
    pub fn new(log_id: Option<LogId<NID>>, membership: Membership<NID>) -> (r: Self)
        ensures
            r == (EffectiveMembership { log_id, membership }),
    {
        EffectiveMembership { log_id, membership }
    }

    pub fn log_id(&self) -> (r: &Option<LogId<NID>>)
        ensures
            *r == self.log_id,
    {
        &self.log_id
    }

    pub fn membership(&self) -> (r: &Membership<NID>)
        ensures
            *r == self.membership,
    {
        &self.membership
    }

    /// Whether `id` is a voter of this membership.
    pub fn is_voter(&self, id: &NID) -> (r: bool)
        ensures
            r == self.membership.voter(*id),
    {
        self.membership.is_voter(id)
    }
}

/// The last committed membership and the last one seen in the log, which is
/// the one in use whether or not it is committed.
#[derive(Clone, Debug, PartialEq, Eq)]
pub struct MembershipState<NID: NodeId> {
    pub committed: EffectiveMembership<NID>,
    pub effective: EffectiveMembership<NID>,
}

impl<NID: NodeId> MembershipState<NID> {
    pub fn new(committed: EffectiveMembership<NID>, effective: EffectiveMembership<NID>) -> (r: Self)
        ensures
            r == (MembershipState { committed, effective }),
    {
        MembershipState { committed, effective }
    }

    pub fn committed(&self) -> (r: &EffectiveMembership<NID>)
        ensures
            *r == self.committed,
    {
        &self.committed
    }

    pub fn effective(&self) -> (r: &EffectiveMembership<NID>)
        ensures
            *r == self.effective,
    {
        &self.effective
    }

    /// Stable: the membership in use is not a joint one, and is the one that
    /// is committed.
    pub open spec fn stable(self) -> bool {
        &&& self.effective.membership.configs@.len() == 1
        &&& self.effective.log_id == self.committed.log_id
    }
}

/// A membership as a snapshot stores it.
#[derive(Clone, Debug, PartialEq, Eq)]
pub struct StoredMembership<NID: NodeId> {
    pub log_id: Option<LogId<NID>>,
    pub membership: Membership<NID>,
}

/// A list without its repetitions holds the same nodes, and as many entries as
/// it has nodes.
pub proof fn law_repetitions_do_not_count<NID: NodeId>(unique: Seq<NID>, ids: Seq<NID>)
    requires
        is_unique_copy(unique, ids),
    ensures
        unique.to_set() == ids.to_set(),
        unique.len() == ids.to_set().len(),
{
    assert forall|id: NID| #[trigger] unique.to_set().contains(id) <==> ids.to_set().contains(
        id,
    ) by {
        assert(unique.contains(id) <==> ids.contains(id));
    }
    assert(unique.to_set() =~= ids.to_set());
    unique.unique_seq_to_set();
}

/// A node is a voter through each list that names it, and through nothing else;
/// being a learner makes a node a member, and never a voter. The lists against
/// which grants are counted are the voter lists.
pub proof fn law_voters_are_those_that_the_lists_name<NID: NodeId>(
    membership: Membership<NID>,
    list: int,
    id: NID,
)
    requires
        0 <= list < membership.configs@.len(),
    ensures
        membership.configs@[list]@.contains(id) ==> membership.voter(id),
        (forall|i: int|
            0 <= i < membership.configs@.len() ==> !(#[trigger] membership.configs@[i])@.contains(
                id,
            )) ==> !membership.voter(id),
        membership.voter(id) ==> membership.member(id),
        membership.learners@.contains(id) ==> membership.member(id),
        !membership.voter(id) && !membership.learners@.contains(id) ==> !membership.member(id),
        config_views(membership.configs@).len() == membership.configs@.len(),
        config_views(membership.configs@)[list] == membership.configs@[list]@,
{
}

/// Without voter lists there are no voters.
pub proof fn law_no_lists_no_voters<NID: NodeId>(membership: Membership<NID>, id: NID)
    requires
        membership.configs@.len() == 0,
    ensures
        !membership.voter(id),
        membership.member(id) <==> membership.learners@.contains(id),
        config_views(membership.configs@).len() == 0,
{
}

/// A membership is stable if it has one voter list and is committed, and not
/// while it is joint, empty or uncommitted.
pub proof fn law_joint_or_uncommitted_membership_is_not_stable<NID: NodeId>(
    state: MembershipState<NID>,
)
    ensures
        state.effective.membership.configs@.len() != 1 ==> !state.stable(),
        state.effective.log_id != state.committed.log_id ==> !state.stable(),
        state.effective.membership.configs@.len() == 1 && state.effective.log_id
            == state.committed.log_id ==> state.stable(),
{
}

} // verus!
