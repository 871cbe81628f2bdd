//! The two ways to lead: as the leader of a committed vote, and as a candidate
//! that collects grants.

use crate::log_id::{owned_log_id, LogId};
use crate::membership::config_views;
use crate::type_config::{contains_id, NodeId};
use crate::vote::Vote;
use vstd::prelude::*;

verus! {

/// The leadership of this node, under one committed vote.
#[derive(Clone, Debug, PartialEq, Eq)]
pub struct Leader<NID: NodeId> {
    pub vote: Vote<NID>,
    /// The successor for which this leader stopped admitting proposals.
    pub transfer_to: Option<NID>,
    /// The last entry that this leader accepted.
    pub last_log_id: Option<LogId<NID>>,
}

impl<NID: NodeId> Leader<NID> {
    /// A leader that admits proposals.
    pub fn new(vote: Vote<NID>, last_log_id: Option<LogId<NID>>) -> (r: Self)
        ensures
            r == (Leader { vote, transfer_to: None, last_log_id }),
    {
        Leader { vote, transfer_to: None, last_log_id }
    }

    pub fn last_log_id(&self) -> (r: Option<&LogId<NID>>)
        ensures
            owned_log_id(r) == self.last_log_id,
    {
        self.last_log_id.as_ref()
    }
}

/// A campaign of this node.
#[derive(Clone, Debug, PartialEq, Eq)]
pub struct Candidate<NID: NodeId> {
    pub vote: Vote<NID>,
    /// The end of the log with which this node asks for votes.
    pub last_log_id: Option<LogId<NID>>,
    /// The voter lists of the membership under which the campaign began.
    pub quorum_set: Vec<Vec<NID>>,
    /// The nodes that granted the vote.
    pub granted: Vec<NID>,
}

/// A campaign as mathematical values.
#[verifier::ext_equal]
#[verifier::reject_recursive_types(NID)]
pub struct CandidateView<NID: NodeId> {
    pub vote: Vote<NID>,
    pub last_log_id: Option<LogId<NID>>,
    pub quorum_set: Seq<Seq<NID>>,
    pub granted: Set<NID>,
}

/// How many of `voters` are in `granted`.
pub open spec fn grants_in<NID: NodeId>(voters: Seq<NID>, granted: Set<NID>) -> nat
    decreases voters.len(),
{
    if voters.len() == 0 {
        0
    } else {
        grants_in(voters.drop_last(), granted) + if granted.contains(voters.last()) {
            1nat
        } else {
            0
        }
    }
}

/// Whether `granted` holds a majority of every voter list.
pub open spec fn is_quorum<NID: NodeId>(quorum_set: Seq<Seq<NID>>, granted: Set<NID>) -> bool {
    forall|i: int|
        0 <= i < quorum_set.len() ==> 2 * grants_in(#[trigger] quorum_set[i], granted)
            > quorum_set[i].len()
}

impl<NID: NodeId> View for Candidate<NID> {
    type V = CandidateView<NID>;

    open spec fn view(&self) -> CandidateView<NID> {
        CandidateView {
            vote: self.vote,
            last_log_id: self.last_log_id,
            quorum_set: config_views(self.quorum_set@),
            granted: self.granted@.to_set(),
        }
    }
}

impl<NID: NodeId> Candidate<NID> {
    /// A campaign that nobody has granted yet.
    pub fn new(
        vote: Vote<NID>,
        last_log_id: Option<LogId<NID>>,
        quorum_set: Vec<Vec<NID>>,
    ) -> (r: Self)
        ensures
            r@ == (CandidateView {
                vote,
                last_log_id,
                quorum_set: config_views(quorum_set@),
                granted: Set::empty(),
            }),
    {
        let granted: Vec<NID> = Vec::new();
        assert(granted@.to_set() =~= Set::empty());
        Candidate { vote, last_log_id, quorum_set, granted }
    }

    pub fn vote_ref(&self) -> (r: &Vote<NID>)
        ensures
            *r == self.vote,
    {
        &self.vote
    }

    /// The nodes that granted the vote.
    pub fn granters(&self) -> (r: &Vec<NID>)
        ensures
            r@.to_set() == self@.granted,
    {
        &self.granted
    }

    /// Record the grant of `target`, and tell whether a quorum has granted.
    pub fn grant_by(&mut self, target: &NID) -> (r: bool)
        ensures
            final(self)@ == (CandidateView {
                granted: old(self)@.granted.insert(*target),
                ..old(self)@
            }),
            r == is_quorum(final(self)@.quorum_set, final(self)@.granted),
    {
        let ghost before = self.granted@;
        if contains_id(&self.granted, target) {
            assert(before.to_set().insert(*target) =~= before.to_set());
        } else {
            self.granted.push(target.dup());
            proof {
                let after = before.push(*target);
                assert forall|id: NID| #[trigger] after.to_set().contains(id) <==> before.to_set().insert(
                    *target,
                ).contains(id) by {
                    if before.contains(id) {
                        let i = choose|i: int| 0 <= i < before.len() && before[i] == id;
                        assert(after[i] == id);
                    }
                    assert(after[before.len() as int] == *target);
                }
                assert(after.to_set() =~= before.to_set().insert(*target));
            }
        }
        self.has_quorum()
    }

    /// Whether a majority of every voter list has granted.
    pub fn has_quorum(&self) -> (r: bool)
        ensures
            r == is_quorum(self@.quorum_set, self@.granted),
    {
        let ghost configs = self@.quorum_set;
        let mut i: usize = 0;
        while i < self.quorum_set.len()
            invariant
                i <= self.quorum_set.len(),
                configs == self@.quorum_set,
                forall|j: int|
                    0 <= j < i ==> 2 * grants_in(#[trigger] configs[j], self@.granted)
                        > configs[j].len(),
            decreases self.quorum_set.len() - i,
        {
            assert(configs[i as int] == self.quorum_set@[i as int]@);
            if !has_majority(&self.quorum_set[i], &self.granted) {
                return false;
            }
            i += 1;
        }
        true
    }
}

/// Whether `granted` holds more than half of `voters`.
fn has_majority<NID: NodeId>(voters: &Vec<NID>, granted: &Vec<NID>) -> (r: bool)
    ensures
        r == (2 * grants_in(voters@, granted@.to_set()) > voters@.len()),
{
    let mut count: usize = 0;
    let mut i: usize = 0;
    while i < voters.len()
        invariant
            i <= voters.len(),
            count <= i,
            count == grants_in(voters@.take(i as int), granted@.to_set()),
        decreases voters.len() - i,
    {
        assert(voters@.take(i + 1).drop_last() == voters@.take(i as int));
        if contains_id(granted, &voters[i]) {
            count += 1;
        }
        i += 1;
    }
    assert(voters@.take(i as int) == voters@);
    count > voters.len() - count
}

/// A voter list without duplicates counts as many grants as it has voters that
/// granted.
pub proof fn law_each_granting_voter_counts_once<NID: NodeId>(
    voters: Seq<NID>,
    granted: Set<NID>,
)
    requires
        voters.no_duplicates(),
    ensures
        grants_in(voters, granted) == voters.to_set().intersect(granted).len(),
        voters.len() == voters.to_set().len(),
    decreases voters.len(),
{
    voters.unique_seq_to_set();
    vstd::seq_lib::seq_to_set_is_finite(voters);
    if voters.len() == 0 {
        assert(voters.to_set().intersect(granted) =~= Set::empty());
    } else {
        let rest = voters.drop_last();
        let last = voters.last();
        law_each_granting_voter_counts_once(rest, granted);
        vstd::seq_lib::seq_to_set_is_finite(rest);
        vstd::set_lib::lemma_len_subset(rest.to_set().intersect(granted), rest.to_set());
        assert forall|id: NID| voters.to_set().contains(id) <==> rest.to_set().insert(
            last,
        ).contains(id) by {
            if voters.contains(id) {
                let i = choose|i: int| 0 <= i < voters.len() && voters[i] == id;
                if i < rest.len() {
                    assert(rest[i] == id);
                }
            }
            if rest.contains(id) {
                let i = choose|i: int| 0 <= i < rest.len() && rest[i] == id;
                assert(voters[i] == id);
            }
            assert(voters[voters.len() - 1] == last);
        }
        assert(!rest.contains(last));
        if granted.contains(last) {
            assert(voters.to_set().intersect(granted) =~= rest.to_set().intersect(granted).insert(
                last,
            ));
        } else {
            assert(voters.to_set().intersect(granted) =~= rest.to_set().intersect(granted));
        }
    }
}

/// Voter lists without duplicates have a quorum among some nodes exactly if
/// more than half of the voters of every list are among them.
pub proof fn law_quorum_is_more_than_half_of_every_list<NID: NodeId>(
    quorum_set: Seq<Seq<NID>>,
    granted: Set<NID>,
)
    requires
        forall|i: int| 0 <= i < quorum_set.len() ==> (#[trigger] quorum_set[i]).no_duplicates(),
    ensures
        is_quorum(quorum_set, granted) <==> forall|i: int|
            0 <= i < quorum_set.len() ==> {
                let voters = (#[trigger] quorum_set[i]).to_set();
                voters.intersect(granted).len() > voters.difference(granted).len()
            },
{
    assert forall|i: int| 0 <= i < quorum_set.len() implies {
        let voters = (#[trigger] quorum_set[i]).to_set();
        (2 * grants_in(quorum_set[i], granted) > quorum_set[i].len()) == (voters.intersect(
            granted,
        ).len() > voters.difference(granted).len())
    } by {
        let voters = quorum_set[i].to_set();
        let inside = voters.intersect(granted);
        let outside = voters.difference(granted);
        law_each_granting_voter_counts_once(quorum_set[i], granted);
        vstd::seq_lib::seq_to_set_is_finite(quorum_set[i]);
        vstd::set_lib::lemma_len_subset(inside, voters);
        vstd::set_lib::lemma_len_subset(outside, voters);
        vstd::set_lib::lemma_set_disjoint_lens(inside, outside);
        assert(inside + outside =~= voters);
    }
}

/// Counts of grants are at most the count of those common to both, above the
/// length of the list.
proof fn lemma_common_grants<NID: NodeId>(voters: Seq<NID>, a: Set<NID>, b: Set<NID>)
    ensures
        grants_in(voters, a) + grants_in(voters, b) <= voters.len() + grants_in(
            voters,
            a.intersect(b),
        ),
    decreases voters.len(),
{
    if voters.len() > 0 {
        lemma_common_grants(voters.drop_last(), a, b);
    }
}

proof fn lemma_some_grant<NID: NodeId>(voters: Seq<NID>, granted: Set<NID>)
    requires
        grants_in(voters, granted) > 0,
    ensures
        exists|id: NID| #[trigger] voters.contains(id) && granted.contains(id),
    decreases voters.len(),
{
    if voters.len() > 0 {
        if granted.contains(voters.last()) {
            assert(voters[voters.len() - 1] == voters.last());
            assert(voters.contains(voters.last()));
        } else {
            let rest = voters.drop_last();
            lemma_some_grant(rest, granted);
            let id = choose|id: NID| #[trigger] rest.contains(id) && granted.contains(id);
            let i = choose|i: int| 0 <= i < rest.len() && rest[i] == id;
            assert(voters[i] == id);
            assert(voters.contains(id));
        }
    }
}

/// Any two quorums share a voter of every list, so that two campaigns that both
/// won were both granted by one node.
pub proof fn law_two_quorums_share_a_voter_of_every_list<NID: NodeId>(
    quorum_set: Seq<Seq<NID>>,
    a: Set<NID>,
    b: Set<NID>,
    list: int,
)
    requires
        is_quorum(quorum_set, a),
        is_quorum(quorum_set, b),
        0 <= list < quorum_set.len(),
    ensures
        exists|id: NID| #[trigger]
            quorum_set[list].contains(id) && a.contains(id) && b.contains(id),
{
    let voters = quorum_set[list];
    lemma_common_grants(voters, a, b);
    lemma_some_grant(voters, a.intersect(b));
    let id = choose|id: NID| #[trigger] voters.contains(id) && a.intersect(b).contains(id);
    assert(quorum_set[list].contains(id) && a.contains(id) && b.contains(id));
}

/// Nodes and the nodes outside them are never both a quorum, whatever the
/// lists are, as long as there is one.
pub proof fn law_no_quorum_on_both_sides<NID: NodeId>(
    quorum_set: Seq<Seq<NID>>,
    a: Set<NID>,
    b: Set<NID>,
)
    requires
        quorum_set.len() > 0,
        a.disjoint(b),
    ensures
        !(is_quorum(quorum_set, a) && is_quorum(quorum_set, b)),
{
    if is_quorum(quorum_set, a) && is_quorum(quorum_set, b) {
        law_two_quorums_share_a_voter_of_every_list(quorum_set, a, b, 0);
    }
}

proof fn lemma_all_grant<NID: NodeId>(voters: Seq<NID>, granted: Set<NID>)
    requires
        forall|id: NID| #[trigger] voters.contains(id) ==> granted.contains(id),
    ensures
        grants_in(voters, granted) == voters.len(),
    decreases voters.len(),
{
    if voters.len() > 0 {
        let rest = voters.drop_last();
        assert(voters[voters.len() - 1] == voters.last());
        assert(voters.contains(voters.last()));
        assert forall|id: NID| #[trigger] rest.contains(id) implies granted.contains(id) by {
            let i = choose|i: int| 0 <= i < rest.len() && rest[i] == id;
            assert(voters[i] == id);
            assert(voters.contains(id));
        }
        lemma_all_grant(rest, granted);
    }
}

/// All voters together are a quorum, if no list is empty.
pub proof fn law_all_voters_are_a_quorum<NID: NodeId>(
    quorum_set: Seq<Seq<NID>>,
    granted: Set<NID>,
)
    requires
        forall|i: int| 0 <= i < quorum_set.len() ==> (#[trigger] quorum_set[i]).len() > 0,
        forall|i: int, id: NID|
            0 <= i < quorum_set.len() && #[trigger] quorum_set[i].contains(id) ==> granted.contains(
                id,
            ),
    ensures
        is_quorum(quorum_set, granted),
{
    assert forall|i: int| 0 <= i < quorum_set.len() implies 2 * grants_in(
        #[trigger] quorum_set[i],
        granted,
    ) > quorum_set[i].len() by {
        lemma_all_grant(quorum_set[i], granted);
    }
}

proof fn lemma_more_grants<NID: NodeId>(voters: Seq<NID>, granted: Set<NID>, more: Set<NID>)
    requires
        granted.subset_of(more),
    ensures
        grants_in(voters, granted) <= grants_in(voters, more),
    decreases voters.len(),
{
    if voters.len() > 0 {
        lemma_more_grants(voters.drop_last(), granted, more);
    }
}

/// A further grant never undoes a quorum.
pub proof fn law_further_grants_keep_a_quorum<NID: NodeId>(
    quorum_set: Seq<Seq<NID>>,
    granted: Set<NID>,
    more: Set<NID>,
)
    requires
        is_quorum(quorum_set, granted),
        granted.subset_of(more),
    ensures
        is_quorum(quorum_set, more),
{
    assert forall|i: int| 0 <= i < quorum_set.len() implies 2 * grants_in(
        #[trigger] quorum_set[i],
        more,
    ) > quorum_set[i].len() by {
        lemma_more_grants(quorum_set[i], granted, more);
    }
}

} // verus!
