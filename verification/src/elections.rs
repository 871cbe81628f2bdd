//! What holds of votes, campaigns and leaderships.

use crate::command::Command;
use crate::engine::{CampaignStart, Engine, EngineView, ForwardToLeader};
use crate::leadership::{
    is_quorum, law_each_granting_voter_counts_once, law_quorum_is_more_than_half_of_every_list,
    law_two_quorums_share_a_voter_of_every_list,
};
use crate::log_id::log_before;
use crate::raft_state::{law_role_goes_by_vote_and_membership, Instant, ServerState};
use crate::type_config::RaftTypeConfig;
use crate::vote::{lemma_vote_order, LeaderId, Vote};
use crate::vote_message::{VoteRequest, VoteResponse};
use vstd::prelude::*;

verus! {

/// Adjusting the role gives the node the role that its vote and membership give
/// it, and tells the runtime exactly when leadership begins or ends. Nothing
/// else changes.
pub proof fn law_runtime_is_told_when_leadership_changes<C: RaftTypeConfig>(engine: EngineView<C>)
    ensures
        ({
            let after = engine.with_role();
            let role = engine.state.role(engine.config.id);
            &&& after.state.server_state == role
            &&& role is Leader && !(engine.state.server_state is Leader) ==> after.commands
                == engine.commands.push(Command::BecomeLeader)
            &&& !(role is Leader) && engine.state.server_state is Leader ==> after.commands
                == engine.commands.push(Command::QuitLeader)
            &&& (role is Leader) == (engine.state.server_state is Leader) ==> after.commands
                == engine.commands
            &&& same_but_for_votes(engine, after)
            &&& after.config == engine.config
            &&& after.state.vote == engine.state.vote
            &&& after.leader == engine.leader
            &&& after.candidate == engine.candidate
        }),
{
}

/// Both engines have the same log, membership, retirement and numbering.
pub open spec fn same_but_for_votes<C: RaftTypeConfig>(a: EngineView<C>, b: EngineView<C>) -> bool {
    &&& a.state.committed == b.state.committed
    &&& a.state.log_ids == b.state.log_ids
    &&& a.state.membership_state == b.state.membership_state
    &&& a.state.io_state == b.state.io_state
    &&& a.prepared_shutdown == b.prepared_shutdown
    &&& a.seq == b.seq
}

/// A smaller vote changes nothing at all.
pub proof fn law_smaller_vote_changes_nothing<C: RaftTypeConfig>(
    engine: EngineView<C>,
    vote: Vote<C::NodeId>,
    now: Instant,
)
    requires
        vote.before(engine.state.vote.vote),
    ensures
        engine.after_seen_vote(vote, now) == engine,
{
}

/// A vote that is not smaller becomes the vote of the node, confirmed now. A
/// greater one is persisted before anything else is asked of the runtime, and
/// its lease is not released; the same vote is not persisted again, and its
/// lease stays released if it was. Log, membership, timers and retirement stay
/// as they were.
pub proof fn law_vote_is_taken_and_persisted<C: RaftTypeConfig>(
    engine: EngineView<C>,
    vote: Vote<C::NodeId>,
    now: Instant,
)
    requires
        !vote.before(engine.state.vote.vote),
    ensures
        ({
            let after = engine.after_vote(vote, now);
            let n = engine.commands.len() as int;
            &&& after.state.vote.vote == vote
            &&& after.state.vote.last_update == Some(now)
            &&& vote == engine.state.vote.vote ==> after.state.vote.lease_disabled
                == engine.state.vote.lease_disabled
            &&& vote != engine.state.vote.vote ==> !after.state.vote.lease_disabled
            &&& vote != engine.state.vote.vote ==> after.commands.len() > n && after.commands[n]
                == (Command::<C>::SaveVote { vote })
            &&& forall|i: int|
                n <= i < after.commands.len() && #[trigger] after.commands[i] is SaveVote ==> i == n
                    && vote != engine.state.vote.vote
            &&& engine.commands.is_prefix_of(after.commands)
            &&& after.config == engine.config
            &&& same_but_for_votes(engine, after)
            &&& engine.after_seen_vote(vote, now) == after
        }),
{
    lemma_vote_order(engine.state.vote.vote, vote, engine.state.vote.vote);
    let after = engine.after_vote(vote, now);
    let n = engine.commands.len() as int;
    assert(after.commands.take(n) =~= engine.commands);
    assert(engine.commands =~= after.commands.take(n));
}

/// A committed vote for a node that is a member makes it lead under that vote:
/// its campaign is over, and the runtime is told if it did not lead before. A
/// leadership of the same term goes on with what it accepted and with its
/// handoff; a new one starts at the end of the log and admits requests.
pub proof fn law_own_committed_vote_gives_the_leadership<C: RaftTypeConfig>(
    engine: EngineView<C>,
    vote: Vote<C::NodeId>,
    now: Instant,
)
    requires
        !vote.before(engine.state.vote.vote),
        vote.committed,
        vote.leader_id.node_id == engine.config.id,
        engine.state.membership_state.effective.membership.member(engine.config.id),
    ensures
        ({
            let after = engine.after_vote(vote, now);
            let goes_on = engine.leader matches Some(leader) && leader.vote.leader_id
                == vote.leader_id;
            let saved = if vote == engine.state.vote.vote {
                engine.commands
            } else {
                engine.commands.push(Command::SaveVote { vote })
            };
            &&& after.leader matches Some(leader) && leader.vote == vote
            &&& after.candidate is None
            &&& after.state.server_state is Leader
            &&& goes_on ==> after.leader->0.transfer_to == engine.leader->0.transfer_to
                && after.leader->0.last_log_id == engine.leader->0.last_log_id
            &&& !goes_on ==> after.leader->0.transfer_to is None && after.leader->0.last_log_id
                == engine.state.end_of_log()
            &&& after.commands == if engine.state.server_state is Leader {
                saved
            } else {
                saved.push(Command::BecomeLeader)
            }
        }),
{
    lemma_vote_order(engine.state.vote.vote, vote, engine.state.vote.vote);
    let voted = engine.with_vote(vote, now);
    law_role_goes_by_vote_and_membership(voted.state, engine.config.id);
}

/// A vote for another node, or for a node that is no member, ends the
/// leadership and the campaign of the node: a voter follows, any other node
/// learns, and the runtime is told if the node led.
pub proof fn law_vote_for_another_ends_leading_and_campaigning<C: RaftTypeConfig>(
    engine: EngineView<C>,
    vote: Vote<C::NodeId>,
    now: Instant,
)
    requires
        !vote.before(engine.state.vote.vote),
        vote.leader_id.node_id != engine.config.id
            || !engine.state.membership_state.effective.membership.member(engine.config.id),
    ensures
        ({
            let after = engine.after_vote(vote, now);
            let saved = if vote == engine.state.vote.vote {
                engine.commands
            } else {
                engine.commands.push(Command::SaveVote { vote })
            };
            &&& after.leader is None
            &&& after.candidate is None
            &&& after.state.server_state
                == if engine.state.membership_state.effective.membership.voter(engine.config.id) {
                ServerState::Follower
            } else {
                ServerState::Learner
            }
            &&& after.commands == if engine.state.server_state is Leader {
                saved.push(Command::QuitLeader)
            } else {
                saved
            }
        }),
{
    lemma_vote_order(engine.state.vote.vote, vote, engine.state.vote.vote);
    let voted = engine.with_vote(vote, now);
    law_role_goes_by_vote_and_membership(voted.state, engine.config.id);
}

/// A vote of a member for itself that is not committed gives no leadership and
/// takes none: leadership, campaign and role stay as they are.
pub proof fn law_own_uncommitted_vote_gives_no_leadership<C: RaftTypeConfig>(
    engine: EngineView<C>,
    vote: Vote<C::NodeId>,
    now: Instant,
)
    requires
        !vote.before(engine.state.vote.vote),
        !vote.committed,
        vote.leader_id.node_id == engine.config.id,
        engine.state.membership_state.effective.membership.member(engine.config.id),
    ensures
        ({
            let after = engine.after_vote(vote, now);
            &&& after.leader == engine.leader
            &&& after.candidate == engine.candidate
            &&& after.state.server_state == engine.state.server_state
            &&& after.commands == if vote == engine.state.vote.vote {
                engine.commands
            } else {
                engine.commands.push(Command::SaveVote { vote })
            }
        }),
{
    lemma_vote_order(engine.state.vote.vote, vote, engine.state.vote.vote);
    let voted = engine.with_vote(vote, now);
    law_role_goes_by_vote_and_membership(voted.state, engine.config.id);
}

/// A member that campaigns takes its own uncommitted vote of the next term,
/// persists it before it asks for the votes of the others with the end of its
/// log, and has no grant yet, not even its own. Grants are counted against the
/// voter lists of the membership in use. Asking gives no leadership.
pub proof fn law_campaign_asks_for_the_next_term<C: RaftTypeConfig>(
    engine: EngineView<C>,
    start: CampaignStart,
)
    requires
        engine.prepared_shutdown is None,
        engine.state.vote.vote.leader_id.term < u64::MAX,
        engine.state.membership_state.effective.membership.member(engine.config.id),
    ensures
        ({
            let after = engine.after_elect(start);
            let vote = Vote {
                leader_id: LeaderId {
                    term: (engine.state.vote.vote.leader_id.term + 1) as u64,
                    node_id: engine.config.id,
                },
                committed: false,
            };
            let configs = engine.state.membership_state.effective.membership.configs@;
            let asked = engine.commands.push(Command::SaveVote { vote }).push(
                Command::SendVote {
                    vote_req: VoteRequest { vote, last_log_id: engine.state.end_of_log() },
                },
            );
            &&& after.state.vote.vote == vote
            &&& after.state.vote.last_update == Some(start.now)
            &&& !after.state.vote.lease_disabled
            &&& after.state.server_state is Candidate
            &&& after.leader == engine.leader
            &&& after.candidate matches Some(campaign) && campaign.vote == vote
                && campaign.last_log_id == engine.state.end_of_log()
                && campaign.granted.len() == 0 && campaign.granted.finite()
                && campaign.quorum_set.len() == configs.len()
            &&& forall|i: int|
                0 <= i < configs.len() ==> #[trigger] after.candidate->0.quorum_set[i]
                    == configs[i]@
            &&& after.commands == if engine.state.server_state is Leader {
                asked.push(Command::QuitLeader)
            } else {
                asked
            }
            &&& same_but_for_votes(engine, after)
        }),
{
    let vote = engine.next_vote();
    let campaigning = engine.with_campaign(start);
    assert(engine.state.vote.vote.before(vote));
    lemma_vote_order(engine.state.vote.vote, vote, engine.state.vote.vote);
    law_own_uncommitted_vote_gives_no_leadership(campaigning, vote, start.now);
    law_vote_is_taken_and_persisted(campaigning, vote, start.now);
    let voted = campaigning.after_vote(vote, start.now);
    law_role_goes_by_vote_and_membership(voted.state, engine.config.id);
    assert(engine.after_elect(start).candidate == campaigning.candidate);
}

/// A node that is no member and is asked to campaign takes and persists the vote
/// of the next term, and neither leads nor campaigns.
pub proof fn law_outsider_does_not_become_a_candidate<C: RaftTypeConfig>(
    engine: EngineView<C>,
    start: CampaignStart,
)
    requires
        engine.prepared_shutdown is None,
        engine.state.vote.vote.leader_id.term < u64::MAX,
        !engine.state.membership_state.effective.membership.member(engine.config.id),
    ensures
        ({
            let after = engine.after_elect(start);
            let vote = Vote {
                leader_id: LeaderId {
                    term: (engine.state.vote.vote.leader_id.term + 1) as u64,
                    node_id: engine.config.id,
                },
                committed: false,
            };
            let saved = engine.commands.push(Command::SaveVote { vote });
            let told = if engine.state.server_state is Leader {
                saved.push(Command::QuitLeader)
            } else {
                saved
            };
            &&& after.leader is None
            &&& after.candidate is None
            &&& after.state.vote.vote == vote
            &&& after.state.vote.last_update == Some(start.now)
            &&& !after.state.vote.lease_disabled
            &&& after.state.server_state is Learner
            &&& after.commands == told.push(
                Command::SendVote {
                    vote_req: VoteRequest { vote, last_log_id: engine.state.end_of_log() },
                },
            )
            &&& same_but_for_votes(engine, after)
        }),
{
    let vote = engine.next_vote();
    let campaigning = engine.with_campaign(start);
    assert(engine.state.vote.vote.before(vote));
    lemma_vote_order(engine.state.vote.vote, vote, engine.state.vote.vote);
    law_vote_for_another_ends_leading_and_campaigning(campaigning, vote, start.now);
    law_vote_is_taken_and_persisted(campaigning, vote, start.now);
    let voted = campaigning.after_vote(vote, start.now);
    law_role_goes_by_vote_and_membership(voted.state, engine.config.id);
}

/// A vote is refused, and changes nothing, while the lease of a committed vote
/// runs, or if the candidate's log is shorter or its vote is smaller.
pub proof fn law_vote_is_refused_without_effect<C: RaftTypeConfig>(
    engine: EngineView<C>,
    req: VoteRequest<C::NodeId>,
    now: Instant,
)
    requires
        (engine.state.vote.vote.committed && !engine.state.vote.lease_disabled
            && engine.state.vote.last_update is Some && now <= engine.state.vote.last_update->0
            + engine.config.timer_config.leader_lease) || log_before(
            req.last_log_id,
            engine.state.end_of_log(),
        ) || req.vote.before(engine.state.vote.vote),
    ensures
        !engine.grants(req, now),
        engine.after_vote_req(req, now) == engine,
{
}

/// A vote is granted, taken and persisted if its log is not shorter, it is not
/// smaller, and no lease is in its way: the vote held is not committed, its
/// lease was released or is over, or it was never confirmed.
pub proof fn law_vote_is_granted_otherwise<C: RaftTypeConfig>(
    engine: EngineView<C>,
    req: VoteRequest<C::NodeId>,
    now: Instant,
)
    requires
        !engine.state.vote.vote.committed || engine.state.vote.lease_disabled
            || engine.state.vote.last_update is None || now > engine.state.vote.last_update->0
            + engine.config.timer_config.leader_lease,
        !log_before(req.last_log_id, engine.state.end_of_log()),
        !req.vote.before(engine.state.vote.vote),
    ensures
        engine.grants(req, now),
        engine.after_vote_req(req, now) == engine.after_vote(req.vote, now),
        engine.after_vote_req(req, now).state.vote.vote == req.vote,
{
    law_vote_is_taken_and_persisted(engine, req.vote, now);
}

/// An answer that comes without a campaign changes nothing.
pub proof fn law_answer_without_a_campaign_is_ignored<C: RaftTypeConfig>(
    engine: EngineView<C>,
    target: C::NodeId,
    resp: VoteResponse<C::NodeId>,
    now: Instant,
)
    requires
        engine.candidate is None,
    ensures
        engine.after_vote_resp(target, resp, now) == engine,
{
}

/// An answer that is no grant, or is for another vote than the campaign's, adds
/// no grant: it is a vote like any other that the node sees.
pub proof fn law_other_answers_are_no_grants<C: RaftTypeConfig>(
    engine: EngineView<C>,
    target: C::NodeId,
    resp: VoteResponse<C::NodeId>,
    now: Instant,
)
    requires
        engine.candidate is Some,
        !resp.vote_granted || resp.vote != engine.candidate->0.vote,
    ensures
        engine.after_vote_resp(target, resp, now) == engine.after_seen_vote(resp.vote, now),
        engine.after_vote_resp(target, resp, now).candidate is Some
            ==> engine.after_vote_resp(target, resp, now).candidate == engine.candidate,
{
}

/// A grant is recorded, and nothing else changes, as long as some voter list has
/// no more voters that granted than voters that did not.
pub proof fn law_no_majority_no_leadership<C: RaftTypeConfig>(
    engine: EngineView<C>,
    target: C::NodeId,
    resp: VoteResponse<C::NodeId>,
    now: Instant,
    list: int,
)
    requires
        engine.candidate is Some,
        resp.vote_granted && resp.vote == engine.candidate->0.vote,
        0 <= list < engine.candidate->0.quorum_set.len(),
        engine.candidate->0.quorum_set[list].no_duplicates(),
        ({
            let voters = engine.candidate->0.quorum_set[list].to_set();
            let granted = engine.candidate->0.granted.insert(target);
            voters.intersect(granted).len() <= voters.difference(granted).len()
        }),
    ensures
        ({
            let after = engine.after_vote_resp(target, resp, now);
            let campaign = engine.candidate->0;
            &&& after.candidate matches Some(going_on) && going_on.vote == campaign.vote
                && going_on.last_log_id == campaign.last_log_id && going_on.quorum_set
                == campaign.quorum_set && going_on.granted == campaign.granted.insert(target)
            &&& after == (EngineView { candidate: after.candidate, ..engine })
        }),
{
    let campaign = engine.candidate->0;
    let granted = campaign.granted.insert(target);
    let voters = campaign.quorum_set[list].to_set();
    law_each_granting_voter_counts_once(campaign.quorum_set[list], granted);
    vstd::seq_lib::seq_to_set_is_finite(campaign.quorum_set[list]);
    vstd::set_lib::lemma_len_subset(voters.intersect(granted), voters);
    vstd::set_lib::lemma_len_subset(voters.difference(granted), voters);
    vstd::set_lib::lemma_set_disjoint_lens(voters.intersect(granted), voters.difference(granted));
    assert(voters.intersect(granted) + voters.difference(granted) =~= voters);
    assert(!is_quorum(campaign.quorum_set, granted));
}

/// The first grant of a campaign, its own or another's, wins nothing where some
/// list has two voters or more: an isolated node stays a candidate.
pub proof fn law_one_grant_of_several_wins_nothing<C: RaftTypeConfig>(
    engine: EngineView<C>,
    target: C::NodeId,
    resp: VoteResponse<C::NodeId>,
    now: Instant,
    list: int,
)
    requires
        engine.candidate is Some,
        engine.candidate->0.granted == Set::<C::NodeId>::empty(),
        resp.vote_granted && resp.vote == engine.candidate->0.vote,
        0 <= list < engine.candidate->0.quorum_set.len(),
        engine.candidate->0.quorum_set[list].no_duplicates(),
        engine.candidate->0.quorum_set[list].len() >= 2,
    ensures
        ({
            let after = engine.after_vote_resp(target, resp, now);
            &&& after.candidate is Some
            &&& after.leader == engine.leader
            &&& after.state == engine.state
            &&& after.commands == engine.commands
        }),
{
    let campaign = engine.candidate->0;
    let granted = campaign.granted.insert(target);
    let voters = campaign.quorum_set[list].to_set();
    vstd::seq_lib::seq_to_set_is_finite(campaign.quorum_set[list]);
    campaign.quorum_set[list].unique_seq_to_set();
    vstd::set_lib::lemma_len_subset(voters.intersect(granted), granted);
    vstd::set_lib::lemma_len_subset(voters.difference(granted), voters);
    vstd::set_lib::lemma_set_disjoint_lens(voters.intersect(granted), voters.difference(granted));
    assert(voters.intersect(granted) + voters.difference(granted) =~= voters);
    law_no_majority_no_leadership(engine, target, resp, now, list);
}

/// A grant with which more than half of every voter list has granted commits the
/// vote of the campaign, unless the node holds a greater vote by now: a member
/// leads under it, and its campaign is over.
pub proof fn law_majority_of_every_list_wins<C: RaftTypeConfig>(
    engine: EngineView<C>,
    target: C::NodeId,
    resp: VoteResponse<C::NodeId>,
    now: Instant,
)
    requires
        engine.candidate is Some,
        resp.vote_granted && resp.vote == engine.candidate->0.vote,
        engine.candidate->0.vote.leader_id.node_id == engine.config.id,
        !(Vote { committed: true, ..engine.candidate->0.vote }).before(engine.state.vote.vote),
        engine.state.membership_state.effective.membership.member(engine.config.id),
        forall|i: int|
            0 <= i < engine.candidate->0.quorum_set.len() ==> {
                let voters = (#[trigger] engine.candidate->0.quorum_set[i]).to_set();
                let granted = engine.candidate->0.granted.insert(target);
                &&& engine.candidate->0.quorum_set[i].no_duplicates()
                &&& voters.intersect(granted).len() > voters.difference(granted).len()
            },
    ensures
        ({
            let after = engine.after_vote_resp(target, resp, now);
            let vote = Vote { committed: true, ..engine.candidate->0.vote };
            &&& after.state.vote.vote == vote
            &&& after.leader matches Some(leader) && leader.vote == vote
            &&& after.candidate is None
            &&& after.state.server_state is Leader
            &&& vote != engine.state.vote.vote ==> after.commands[engine.commands.len() as int] == (
            Command::<C>::SaveVote { vote })
            &&& !(engine.state.server_state is Leader) ==> after.commands.last()
                == Command::<C>::BecomeLeader
            &&& same_but_for_votes(engine, after)
            &&& after == (EngineView { candidate: None, ..engine }).after_vote(vote, now)
        }),
{
    let campaign = engine.candidate->0;
    let granted = campaign.granted.insert(target);
    let vote = Vote { committed: true, ..campaign.vote };
    let won = EngineView { candidate: None, ..engine };
    law_quorum_is_more_than_half_of_every_list(campaign.quorum_set, granted);
    law_own_committed_vote_gives_the_leadership(won, vote, now);
    law_vote_is_taken_and_persisted(won, vote, now);
}

/// If two campaigns count against the same voter lists, and a grant makes each
/// of them win, some voter of every list granted both.
pub proof fn law_two_winners_have_a_voter_in_common<C: RaftTypeConfig>(
    one: EngineView<C>,
    other: EngineView<C>,
    targets: (C::NodeId, C::NodeId),
    now: Instant,
    list: int,
)
    requires
        one.candidate is Some,
        other.candidate is Some,
        one.candidate->0.quorum_set == other.candidate->0.quorum_set,
        0 <= list < one.candidate->0.quorum_set.len(),
        one.after_vote_resp(
            targets.0,
            VoteResponse {
                vote: one.candidate->0.vote,
                vote_granted: true,
                last_log_id: None,
            },
            now,
        ).candidate is None,
        other.after_vote_resp(
            targets.1,
            VoteResponse {
                vote: other.candidate->0.vote,
                vote_granted: true,
                last_log_id: None,
            },
            now,
        ).candidate is None,
    ensures
        exists|id: C::NodeId| #[trigger]
            one.candidate->0.quorum_set[list].contains(id)
                && one.candidate->0.granted.insert(targets.0).contains(id)
                && other.candidate->0.granted.insert(targets.1).contains(id),
{
    law_two_quorums_share_a_voter_of_every_list(
        one.candidate->0.quorum_set,
        one.candidate->0.granted.insert(targets.0),
        other.candidate->0.granted.insert(targets.1),
        list,
    );
}

/// A request is admitted exactly by a node that leads, hands its leadership to
/// nobody and is not retiring. A leader that hands over names its successor,
/// and a node that does not lead names the leader it knows.
pub proof fn law_only_an_active_leader_admits<C: RaftTypeConfig>(engine: EngineView<C>)
    ensures
        engine.admission() is Ok <==> engine.leader is Some && engine.leader->0.transfer_to is None
            && engine.prepared_shutdown is None,
        engine.leader is None ==> engine.admission() == Err::<(), _>(
            ForwardToLeader { leader_id: engine.state.known_leader() },
        ),
        engine.leader is Some && engine.admission() is Err ==> engine.admission() == Err::<(), _>(
            ForwardToLeader { leader_id: engine.leader->0.transfer_to },
        ),
{
}

/// A majority that comes when the node holds a greater vote ends the campaign,
/// and changes nothing else.
pub proof fn law_outvoted_campaign_wins_nothing<C: RaftTypeConfig>(
    engine: EngineView<C>,
    target: C::NodeId,
    resp: VoteResponse<C::NodeId>,
    now: Instant,
)
    requires
        engine.candidate is Some,
        resp.vote_granted && resp.vote == engine.candidate->0.vote,
        (Vote { committed: true, ..engine.candidate->0.vote }).before(engine.state.vote.vote),
    ensures
        ({
            let after = engine.after_vote_resp(target, resp, now);
            after == (EngineView { candidate: after.candidate, ..engine })
        }),
{
}

/// The view of an engine shows its settings, state, leadership, retirement and
/// queue as they are, and its campaign with the granters as a set.
pub proof fn law_view_shows_the_whole_engine<C: RaftTypeConfig>(engine: Engine<C>, id: C::NodeId)
    ensures
        engine@.config == engine.config,
        engine@.state == engine.state,
        engine@.leader == engine.leader,
        engine@.prepared_shutdown == engine.prepared_shutdown,
        engine@.seq == engine.output.seq,
        engine@.commands == engine.output.commands@,
        engine.candidate is None <==> engine@.candidate is None,
        engine.candidate is Some ==> {
            let campaign = engine.candidate->0;
            let view = engine@.candidate->0;
            &&& view.vote == campaign.vote
            &&& view.last_log_id == campaign.last_log_id
            &&& view.granted.contains(id) <==> campaign.granted@.contains(id)
            &&& view.quorum_set.len() == campaign.quorum_set@.len()
            &&& forall|i: int|
                0 <= i < campaign.quorum_set@.len() ==> #[trigger] view.quorum_set[i]
                    == campaign.quorum_set@[i]@
        },
{
}

} // verus!
