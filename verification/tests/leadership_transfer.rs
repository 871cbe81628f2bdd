//! Planned handoff and retirement.

use raft_engine::command::Command;
use raft_engine::engine::{CampaignStart, Engine, EngineConfig};
use raft_engine::leadership::Leader;
use raft_engine::log_id::LogId;
use raft_engine::membership::{EffectiveMembership, Membership, MembershipState};
use raft_engine::raft_state::{IOState, LeasedVote, LogIdList, RaftState, ServerState};
use raft_engine::transfer_leader::{TransferLeaderError, TransferLeaderRequest};
use raft_engine::type_config::RaftTypeConfig;
use raft_engine::vote::{CommittedLeaderId, Vote};
use raft_engine::vote_message::{VoteRequest, VoteResponse};

#[derive(Debug, PartialEq)]
struct UTConfig;

impl RaftTypeConfig for UTConfig {
    type NodeId = u64;
    type D = ();
    type SnapshotData = Vec<u8>;
    type Reply = ();
    type ReplySender = u64;
}

const NOW: u64 = 1_000;

fn start() -> CampaignStart {
    CampaignStart {
        now: NOW,
        sample: 1 << 62,
    }
}

fn log_id(term: u64, node_id: u64, index: u64) -> LogId<u64> {
    LogId::new(CommittedLeaderId::new(term, node_id), index)
}

fn engine(id: u64) -> Engine<UTConfig> {
    let vote = Vote::new_committed(5, 0);
    let last = Some(log_id(5, 0, 2));
    let membership =
        || EffectiveMembership::new(Some(log_id(2, 0, 1)), Membership::new(vec![vec![0, 1, 2]], vec![3]));
    let state = RaftState {
        vote: LeasedVote::new(NOW, vote.clone()),
        committed: last.clone(),
        log_ids: LogIdList::new(vec![log_id(0, 0, 0), log_id(2, 0, 1), log_id(5, 0, 2)]),
        membership_state: MembershipState::new(membership(), membership()),
        io_state: IOState { applied: last.clone() },
        server_state: if id == 0 {
            ServerState::Leader
        } else if id == 3 {
            ServerState::Learner
        } else {
            ServerState::Follower
        },
    };
    let mut engine = Engine::new(state, EngineConfig {
        id,
        ..Default::default()
    });
    if id == 0 {
        engine.leader = Some(Leader::new(vote, last));
    }
    engine
}

fn request() -> TransferLeaderRequest<u64> {
    engine(0).begin_leadership_transfer(1).unwrap()
}

fn assert_refused(engine: &mut Engine<UTConfig>, request: TransferLeaderRequest<u64>, error: TransferLeaderError) {
    let before = engine.state.clone();
    assert_eq!(Err(error), engine.handle_leadership_transfer(request, start()));
    assert_eq!(
        before, engine.state,
        "a refusal must not change vote, lease, log or membership"
    );
    assert!(engine.output.take_commands().is_empty());
}

#[test]
fn begin_stops_admission_and_preserves_the_exact_log_and_vote() {
    let mut engine = engine(0);
    let before = engine.state.clone();
    let request = engine.begin_leadership_transfer(1).unwrap();
    assert_eq!(&Vote::new_committed(5, 0), request.from());
    assert_eq!(&1, request.to());
    assert_eq!(Some(&log_id(5, 0, 2)), request.last_log_id());
    assert_eq!(Some(&log_id(2, 0, 1)), request.membership_log_id());
    assert_eq!(before.vote_ref(), engine.state.vote_ref());
    assert_eq!(before.vote_last_modified(), engine.state.vote_last_modified());
    assert_eq!(before.log_ids, engine.state.log_ids);
    assert_eq!(before.committed, engine.state.committed);
    assert!(engine.state.vote.lease_disabled());
    assert!(
        engine.output.take_commands().is_empty(),
        "begin does not manufacture votes or log entries"
    );
    assert_eq!(Some(1), engine.leader_handler().err().unwrap().leader_id);
    assert_eq!(request, engine.begin_leadership_transfer(1).unwrap());
    assert_eq!(
        Err(TransferLeaderError::TransferInProgress),
        engine.begin_leadership_transfer(2)
    );
    assert_eq!(Some(1), engine.leader.as_ref().unwrap().transfer_to);
    engine.handle_leadership_transfer(request, start()).unwrap();
    assert!(engine.candidate_ref().is_none(), "the old leader does not campaign");
}

#[test]
fn begin_rejects_self_learner_missing_target_and_non_leader_without_effects() {
    for target in [0, 3, 4] {
        let mut engine = engine(0);
        let before = engine.state.clone();
        assert_eq!(
            Err(TransferLeaderError::InvalidTarget),
            engine.begin_leadership_transfer(target)
        );
        assert_eq!(before, engine.state);
        assert!(engine.leader_handler().is_ok());
    }
    let mut follower = engine(1);
    let before = follower.state.clone();
    assert_eq!(
        Err(TransferLeaderError::NotLeader),
        follower.begin_leadership_transfer(2)
    );
    assert_eq!(before, follower.state);
}

#[test]
fn only_exact_applied_target_campaigns_through_normal_persisted_vote() {
    let mut target = engine(1);
    target.handle_leadership_transfer(request(), start()).unwrap();
    assert_eq!(&Vote::new(6, 1), target.state.vote_ref());
    assert_eq!(ServerState::Candidate, target.state.server_state);
    assert_eq!(&Vote::new(6, 1), target.candidate_ref().unwrap().vote_ref());
    assert!(
        !target.state.vote.lease_disabled(),
        "the next vote has the ordinary lease policy"
    );
    assert_eq!(
        vec![Command::SaveVote { vote: Vote::new(6, 1) }, Command::SendVote {
            vote_req: VoteRequest::new(Vote::new(6, 1), Some(log_id(5, 0, 2)))
        },],
        target.output.take_commands()
    );
    assert_refused(&mut target, request(), TransferLeaderError::VoteChanged);
}

#[test]
fn other_voter_releases_only_the_old_lease_and_late_heartbeat_cannot_restore_it() {
    let mut voter = engine(2);
    let before = voter.state.clone();
    let next_vote = VoteRequest::new(Vote::new(6, 1), Some(log_id(5, 0, 2)));
    assert!(
        !voter.handle_vote_req(next_vote.clone(), NOW).vote_granted,
        "the old lease initially blocks election"
    );
    voter.handle_leadership_transfer(request(), start()).unwrap();
    assert_eq!(before.vote_ref(), voter.state.vote_ref());
    assert_eq!(before.vote_last_modified(), voter.state.vote_last_modified());
    assert!(voter.candidate_ref().is_none());
    assert!(voter.output.take_commands().is_empty());
    voter.update_vote(&Vote::new_committed(5, 0), NOW).unwrap();
    assert!(
        voter.state.vote.lease_disabled(),
        "an equal-vote heartbeat cannot restore the released lease"
    );
    assert!(voter.handle_vote_req(next_vote, NOW).vote_granted);
    assert!(!voter.state.vote.lease_disabled());
    assert_eq!(
        vec![Command::SaveVote { vote: Vote::new(6, 1) }],
        voter.output.take_commands()
    );
}

#[test]
fn unprepared_leader_cannot_release_its_lease_by_receiving_a_request() {
    let mut leader = engine(0);
    assert_refused(&mut leader, request(), TransferLeaderError::NotPrepared);
    assert!(leader.leader_handler().is_ok());
}

#[test]
fn stale_or_uncommitted_vote_cannot_release_a_lease() {
    for from in [Vote::new_committed(4, 0), Vote::new_committed(5, 2), Vote::new(5, 0)] {
        let mut request = request();
        request.from = from;
        assert_refused(&mut engine(1), request, TransferLeaderError::VoteChanged);
    }
}

#[test]
fn changed_or_uncommitted_membership_cannot_release_a_lease() {
    let mut changed = request();
    changed.membership_log_id = Some(log_id(1, 0, 1));
    assert_refused(&mut engine(1), changed, TransferLeaderError::MembershipChanged);
    for joint in [false, true] {
        for id in [0, 1] {
            let mut engine = engine(id);
            let membership = if joint {
                Membership::new(vec![vec![0, 1, 2], vec![0, 1, 3]], vec![])
            } else {
                Membership::new(vec![vec![0, 1, 2]], vec![])
            };
            let effective = EffectiveMembership::new(Some(log_id(5, 0, 2)), membership);
            let committed = if joint {
                effective.clone()
            } else {
                engine.state.membership_state.committed().clone()
            };
            engine.state.membership_state = MembershipState::new(committed, effective);
            if id == 0 {
                let before = engine.state.clone();
                assert_eq!(
                    Err(TransferLeaderError::MembershipChanged),
                    engine.begin_leadership_transfer(1)
                );
                assert_eq!(before, engine.state);
                assert!(engine.leader_handler().is_ok());
            } else {
                let mut request = request();
                request.membership_log_id = Some(log_id(5, 0, 2));
                assert_refused(&mut engine, request, TransferLeaderError::MembershipChanged);
            }
        }
    }
}

#[test]
fn learner_or_missing_target_and_learner_receiver_cannot_campaign() {
    for to in [0, 3, 4] {
        let mut request = request();
        request.to = to;
        assert_refused(&mut engine(1), request, TransferLeaderError::InvalidTarget);
    }
    assert_refused(&mut engine(3), request(), TransferLeaderError::MembershipChanged);
}

#[test]
fn target_must_apply_the_entire_accepted_prefix_before_campaigning() {
    let mut target = engine(1);
    target.state.io_state.applied = Some(log_id(2, 0, 1));
    assert_refused(&mut target, request(), TransferLeaderError::LogNotApplied);
    target.state.io_state.update_applied(Some(log_id(5, 0, 2)));
    target.handle_leadership_transfer(request(), start()).unwrap();
    assert_eq!(&Vote::new(6, 1), target.state.vote_ref());
}

#[test]
fn retiring_candidate_ignores_delayed_vote_grants() {
    let mut voter = engine(1);
    voter.elect(start());
    let vote = voter.state.vote_ref().clone();
    voter.handle_vote_resp(1, VoteResponse::new(vote.clone(), Some(log_id(5, 0, 2)), true), NOW);
    assert!(voter.candidate_ref().is_some());
    assert!(voter.leader.is_none());
    voter.output.take_commands();

    assert_eq!(None, voter.prepare_shutdown(Some(2)).unwrap());
    voter.handle_vote_resp(2, VoteResponse::new(vote.clone(), Some(log_id(5, 0, 2)), true), NOW);
    assert!(
        voter.leader.is_none(),
        "a retiring candidate must not win from a delayed grant"
    );
    assert!(voter.candidate_ref().is_none());
    assert_eq!(&vote, voter.state.vote_ref());
    assert!(voter.output.take_commands().is_empty());
}

#[test]
fn retiring_follower_does_not_start_new_campaign() {
    let mut voter = engine(1);
    let before = voter.state.clone();
    assert_eq!(None, voter.prepare_shutdown(None).unwrap());
    voter.elect(start());
    assert!(voter.candidate_ref().is_none(), "a retiring follower must not campaign");
    assert_eq!(before, voter.state);
    assert!(voter.output.take_commands().is_empty());
}

#[test]
fn retiring_target_cannot_release_lease_or_campaign() {
    let mut voter = engine(1);
    let before = voter.state.clone();
    assert_eq!(None, voter.prepare_shutdown(None).unwrap());
    assert!(
        voter.handle_leadership_transfer(request(), start()).is_err(),
        "a retiring target must refuse handoff"
    );
    assert_eq!(before, voter.state);
    assert!(voter.candidate_ref().is_none());
    assert!(voter.output.take_commands().is_empty());
}

#[test]
fn retirement_preserves_voting_for_other_candidates_and_never_resumes() {
    let mut voter = engine(1);
    assert_eq!(None, voter.prepare_shutdown(None).unwrap());
    let mut transfer = engine(0).begin_leadership_transfer(2).unwrap();
    voter.handle_leadership_transfer(transfer.clone(), start()).unwrap();
    assert!(voter.state.vote.lease_disabled());
    assert!(
        voter
            .handle_vote_req(VoteRequest::new(Vote::new(6, 2), Some(log_id(5, 0, 2))), NOW)
            .vote_granted
    );
    voter.output.take_commands();
    assert_eq!(None, voter.prepare_shutdown(Some(2)).unwrap());
    voter.elect(start());
    assert!(voter.candidate_ref().is_none());
    assert!(voter.leader.is_none());
    assert_eq!(&Vote::new(6, 2), voter.state.vote_ref());
    assert!(voter.output.take_commands().is_empty());

    // Even an externally delivered committed self vote cannot reopen admission.
    voter.update_vote(&Vote::new_committed(7, 1), NOW).unwrap();
    assert!(voter.leader_handler().is_err());
    assert_eq!(Err(TransferLeaderError::Retiring), voter.begin_leadership_transfer(2));
    transfer.from = Vote::new_committed(7, 1);
    transfer.to = 2;
    assert_eq!(
        Err(TransferLeaderError::NotPrepared),
        voter.handle_leadership_transfer(transfer, start())
    );
}

#[test]
fn leader_retirement_retains_exact_result_after_successor_vote() {
    let mut voter = engine(0);
    let transfer = voter.prepare_shutdown(Some(1)).unwrap().unwrap();
    assert_eq!(Some(1), voter.leader_handler().err().unwrap().leader_id);
    assert_eq!(Some(transfer.clone()), voter.prepare_shutdown(None).unwrap());
    assert_eq!(
        Err(TransferLeaderError::TransferInProgress),
        voter.prepare_shutdown(Some(2))
    );
    voter.update_vote(&Vote::new_committed(6, 1), NOW).unwrap();
    voter.output.take_commands();
    assert_eq!(Some(transfer), voter.prepare_shutdown(Some(1)).unwrap());
    voter.elect(start());
    assert!(voter.candidate_ref().is_none());
    assert!(voter.leader.is_none());
    assert!(voter.output.take_commands().is_empty());
}

#[test]
fn rejected_leader_retirement_does_not_change_admission_or_vote() {
    for to in [None, Some(0), Some(3), Some(4)] {
        let mut voter = engine(0);
        let before = voter.state.clone();
        assert_eq!(Err(TransferLeaderError::InvalidTarget), voter.prepare_shutdown(to));
        assert_eq!(before, voter.state);
        assert!(voter.prepared_shutdown.is_none());
        assert!(voter.leader_handler().is_ok());
        assert!(voter.output.take_commands().is_empty());
    }
}

#[test]
fn handoff_needs_a_quorum_and_then_makes_the_successor_lead() {
    let mut target = engine(1);
    target.handle_leadership_transfer(request(), start()).unwrap();
    assert!(target.leader.is_none());
    let mut voter = engine(2);
    voter.handle_leadership_transfer(request(), start()).unwrap();
    target.output.take_commands();
    let own = target.handle_vote_req(VoteRequest::new(Vote::new(6, 1), Some(log_id(5, 0, 2))), NOW);
    target.handle_vote_resp(1, own, NOW);
    assert!(target.leader.is_none(), "one grant of three is no quorum");
    let granted = voter.handle_vote_req(VoteRequest::new(Vote::new(6, 1), Some(log_id(5, 0, 2))), NOW);
    target.handle_vote_resp(2, granted, NOW);
    assert_eq!(ServerState::Leader, target.state.server_state);
    assert!(target.leader_handler().is_ok());
    assert!(target.candidate_ref().is_none());
    assert_eq!(
        vec![
            Command::SaveVote {
                vote: Vote::new_committed(6, 1)
            },
            Command::BecomeLeader
        ],
        target.output.take_commands()
    );
    let mut old = engine(0);
    old.begin_leadership_transfer(1).unwrap();
    old.update_vote(&Vote::new_committed(6, 1), NOW).unwrap();
    assert!(old.leader.is_none());
    assert_eq!(Some(1), old.leader_handler().err().unwrap().leader_id);
    assert_eq!(ServerState::Follower, old.state.server_state);
    old.update_vote(&Vote::new_committed(7, 0), NOW).unwrap();
    assert!(old.leader_handler().is_ok(), "beginning a handoff does not retire");
}

#[test]
fn smaller_votes_are_refused_with_the_vote_held() {
    let mut voter = engine(1);
    let before = voter.state.clone();
    assert_eq!(
        Err(Vote::new_committed(5, 0)),
        voter.update_vote(&Vote::new_committed(4, 2), NOW + 1)
    );
    assert_eq!(before, voter.state);
    let later = NOW + 301;
    let shorter = voter.handle_vote_req(VoteRequest::new(Vote::new(6, 2), Some(log_id(2, 0, 9))), later);
    assert!(!shorter.vote_granted, "a shorter log is not elected");
    let stale = voter.handle_vote_req(VoteRequest::new(Vote::new(4, 2), Some(log_id(5, 0, 2))), later);
    assert!(!stale.vote_granted);
    assert_eq!(Vote::new_committed(5, 0), stale.vote);
    assert_eq!(Some(log_id(5, 0, 2)), stale.last_log_id);
    let next = VoteRequest::new(Vote::new(6, 2), Some(log_id(5, 0, 2)));
    assert!(!voter.handle_vote_req(next.clone(), NOW + 300).vote_granted);
    assert!(voter.handle_vote_req(next, later).vote_granted, "the lease has run out");
}

#[test]
fn each_refusal_has_its_message() {
    for (error, message) in [
        (TransferLeaderError::NotLeader, "leadership transfer requires the current leader"),
        (
            TransferLeaderError::NotPrepared,
            "leadership transfer has not stopped leader admission",
        ),
        (
            TransferLeaderError::InvalidTarget,
            "leadership transfer target is not an eligible voter",
        ),
        (
            TransferLeaderError::TransferInProgress,
            "leadership transfer is already in progress",
        ),
        (
            TransferLeaderError::MembershipChanged,
            "leadership transfer membership is not stable and exact",
        ),
        (TransferLeaderError::VoteChanged, "leadership transfer vote is not current"),
        (
            TransferLeaderError::LogNotApplied,
            "leadership transfer target has not applied the required log",
        ),
        (TransferLeaderError::Retiring, "leadership transfer target is retiring"),
    ] {
        assert_eq!(message, error.message());
    }
}

#[test]
fn retired_leader_votes_for_others() {
    let mut leader = engine(0);
    leader.prepare_shutdown(Some(1)).unwrap();
    assert!(
        !leader
            .handle_vote_req(VoteRequest::new(Vote::new(6, 2), Some(log_id(5, 0, 1))), NOW)
            .vote_granted
    );
    assert!(
        leader
            .handle_vote_req(VoteRequest::new(Vote::new(6, 2), Some(log_id(5, 0, 2))), NOW)
            .vote_granted
    );
    assert_eq!(&Vote::new(6, 2), leader.state.vote_ref());
    assert_eq!(ServerState::Follower, leader.state.server_state);
    assert_eq!(
        vec![Command::SaveVote { vote: Vote::new(6, 2) }, Command::QuitLeader],
        leader.output.take_commands()
    );
}

#[test]
fn retirement_outlasts_progress_and_membership_changes() {
    let mut leader = engine(0);
    let transfer = leader.prepare_shutdown(Some(1)).unwrap().unwrap();
    let next = log_id(5, 0, 3);
    let membership = || EffectiveMembership::new(Some(next.clone()), Membership::new(vec![vec![0, 2]], vec![1]));
    leader.state.log_ids = LogIdList::new(vec![log_id(5, 0, 2), next.clone()]);
    leader.state.committed = Some(next.clone());
    leader.state.io_state.update_applied(Some(next.clone()));
    leader.state.membership_state = MembershipState::new(membership(), membership());
    leader.output.take_commands();
    assert_eq!(Some(1), leader.leader_handler().err().unwrap().leader_id);
    assert_eq!(Ok(Some(transfer.clone())), leader.prepare_shutdown(None));
    assert_eq!(
        Err(TransferLeaderError::TransferInProgress),
        leader.prepare_shutdown(Some(2))
    );
    leader.update_vote(&Vote::new_committed(6, 0), NOW).unwrap();
    assert!(leader.leader_handler().is_err());
    leader.elect(start());
    assert!(leader.candidate_ref().is_none());
    assert_eq!(Ok(Some(transfer)), leader.prepare_shutdown(Some(1)));
}
