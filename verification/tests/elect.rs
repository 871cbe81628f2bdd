//! Campaigns.

use std::collections::VecDeque;

use rand::{Rng, RngCore};
use raft_engine::command::Command;
use raft_engine::config::Config;
use raft_engine::engine::{CampaignStart, Engine, EngineConfig};
use raft_engine::leadership::Leader;
use raft_engine::log_id::LogId;
use raft_engine::membership::{EffectiveMembership, Membership, MembershipState};
use raft_engine::raft_state::{IOState, LeasedVote, LogIdList, RaftState, ServerState};
use raft_engine::type_config::RaftTypeConfig;
use raft_engine::vote::{CommittedLeaderId, Vote};
use raft_engine::vote_message::VoteRequest;

#[derive(Debug, PartialEq)]
struct UTConfig;

impl RaftTypeConfig for UTConfig {
    type NodeId = u64;
    type D = ();
    type SnapshotData = Vec<u8>;
    type Reply = ();
    type ReplySender = u64;
}

fn log_id(term: u64, node_id: u64, index: u64) -> LogId<u64> {
    LogId::new(CommittedLeaderId::new(term, node_id), index)
}

fn m1() -> Membership<u64> {
    Membership::new(vec![vec![1]], vec![])
}

fn m12() -> Membership<u64> {
    Membership::new(vec![vec![1, 2]], vec![])
}

fn eng(config: EngineConfig<u64>, membership: Membership<u64>) -> Engine<UTConfig> {
    let state = RaftState {
        vote: LeasedVote::new(0, Vote::new(0, 0)),
        committed: None,
        log_ids: LogIdList::new(vec![log_id(0, 0, 0)]),
        membership_state: MembershipState::new(
            EffectiveMembership::new(None, Membership::new(vec![], vec![])),
            EffectiveMembership::new(Some(log_id(0, 1, 1)), membership),
        ),
        io_state: IOState { applied: None },
        server_state: ServerState::Learner,
    };
    Engine::new(state, config)
}

fn node(id: u64) -> EngineConfig<u64> {
    EngineConfig {
        id,
        ..Default::default()
    }
}

fn start(sample: u64) -> CampaignStart {
    CampaignStart { now: 10, sample }
}

struct ScriptedRng(VecDeque<u64>);

impl RngCore for ScriptedRng {
    fn next_u32(&mut self) -> u32 {
        self.next_u64() as u32
    }

    fn next_u64(&mut self) -> u64 {
        self.0.pop_front().expect("scripted election RNG sample")
    }

    fn fill_bytes(&mut self, destination: &mut [u8]) {
        for byte in destination {
            *byte = self.next_u64() as u8;
        }
    }

    fn try_fill_bytes(&mut self, destination: &mut [u8]) -> Result<(), rand::Error> {
        self.fill_bytes(destination);
        Ok(())
    }
}

fn election_config() -> Config {
    Config {
        election_timeout_min: 100,
        election_timeout_max: 104,
        ..Default::default()
    }
}

#[test]
fn test_default_election_timer_bounds_are_coherent() {
    let config = EngineConfig::<u64>::default();
    let minimum = config.election_timeout_min;
    let maximum = config.election_timeout_max;

    assert!(minimum <= config.timer_config.election_timeout);
    assert!(config.timer_config.election_timeout < maximum);
    assert_eq!(maximum, config.timer_config.leader_lease);
    assert!(config.timer_config.smaller_log_timeout > maximum);
}

#[test]
fn test_election_timeout_is_resampled_for_every_campaign() {
    let mut rng = ScriptedRng(VecDeque::from([0, 1_u64 << 62, 1_u64 << 63, 3_u64 << 62]));

    let config = EngineConfig::new(1, &election_config(), rng.next_u64());
    let leader_lease = config.timer_config.leader_lease;
    let smaller_log_timeout = config.timer_config.smaller_log_timeout;
    assert_eq!(100, config.timer_config.election_timeout);
    assert_eq!(104, leader_lease);
    assert_eq!(208, smaller_log_timeout);

    let mut engine = eng(config, m12());
    for expected_timeout in [101, 102, 103] {
        engine.elect(start(rng.next_u64()));
        let election_timeout = engine.config.timer_config.election_timeout;
        assert_eq!(expected_timeout, election_timeout);
        assert!((100..104).contains(&election_timeout));
        assert_eq!(leader_lease, engine.config.timer_config.leader_lease);
        assert_eq!(smaller_log_timeout, engine.config.timer_config.smaller_log_timeout);
    }
    assert_eq!(Vote::new(3, 1), *engine.state.vote_ref());
    assert!(rng.0.is_empty());
}

#[test]
fn test_repeated_tied_campaigns_resample_to_different_timeouts() {
    let mut rng = ScriptedRng(VecDeque::from([0, 0, 1_u64 << 62, 3_u64 << 62, 1_u64 << 63, 0]));
    let config = election_config();

    let mut one = eng(EngineConfig::new(1, &config, rng.next_u64()), m12());
    let mut two = eng(EngineConfig::new(2, &config, rng.next_u64()), m12());
    assert_eq!(
        one.config.timer_config.election_timeout,
        two.config.timer_config.election_timeout
    );

    one.elect(start(rng.next_u64()));
    two.elect(start(rng.next_u64()));
    assert_eq!(Vote::new(1, 1), *one.state.vote_ref());
    assert_eq!(Vote::new(1, 2), *two.state.vote_ref());
    assert_eq!(101, one.config.timer_config.election_timeout);
    assert_eq!(103, two.config.timer_config.election_timeout);

    one.elect(start(rng.next_u64()));
    two.elect(start(rng.next_u64()));
    assert_eq!(Vote::new(2, 1), *one.state.vote_ref());
    assert_eq!(Vote::new(2, 2), *two.state.vote_ref());
    assert_eq!(102, one.config.timer_config.election_timeout);
    assert_eq!(100, two.config.timer_config.election_timeout);
    assert!(rng.0.is_empty());
}

#[test]
fn test_elect_single_node() {
    // single node: still need to wait for Vote to persist
    let mut eng = eng(node(1), m1());

    eng.elect(start(0));

    assert_eq!(Vote::new(1, 1), *eng.state.vote_ref());
    assert!(eng.leader.is_none());
    assert!(eng.candidate_ref().is_some(), "candidate state is pending");

    assert_eq!(ServerState::Candidate, eng.state.server_state);

    assert_eq!(
        vec![
            Command::SaveVote { vote: Vote::new(1, 1) },
            Command::SendVote {
                vote_req: VoteRequest {
                    vote: Vote::new(1, 1),
                    last_log_id: Some(log_id(0, 0, 0)),
                },
            },
        ],
        eng.output.take_commands()
    );
}

#[test]
fn test_elect_single_node_elect_again() {
    // single node: electing again will override previous state
    let mut eng = eng(node(1), m1());

    // Build in-progress election state
    eng.state.vote = LeasedVote::new(0, Vote::new_committed(1, 2));
    eng.leader = Some(Leader::new(Vote::new_committed(1, 2), Some(log_id(0, 0, 0))));
    eng.candidate.as_mut().map(|candidate| candidate.grant_by(&1));

    eng.elect(start(0));

    assert_eq!(Vote::new(2, 1), *eng.state.vote_ref());
    assert_eq!(Vote::new(2, 1), *eng.candidate_ref().unwrap().vote_ref());

    assert!(eng.candidate.as_mut().is_some(), "candidate state is pending");

    assert_eq!(ServerState::Candidate, eng.state.server_state);

    assert_eq!(
        vec![
            Command::SaveVote { vote: Vote::new(2, 1) },
            Command::SendVote {
                vote_req: VoteRequest {
                    vote: Vote::new(2, 1),
                    last_log_id: Some(log_id(0, 0, 0)),
                },
            },
        ],
        eng.output.take_commands()
    );
}

#[test]
fn test_elect_multi_node_enter_candidate() {
    // multi nodes: enter candidate state
    let mut eng = eng(node(1), m12());
    eng.state.log_ids = LogIdList::new(vec![log_id(1, 1, 1)]);

    eng.elect(start(0));

    assert_eq!(Vote::new(1, 1), *eng.state.vote_ref());
    assert!(eng.leader.is_none());
    assert_eq!(Vote::new(1, 1), *eng.candidate_ref().unwrap().vote_ref());

    assert_eq!(Some(&vec![]), eng.candidate_ref().map(|x| x.granters()));

    assert_eq!(ServerState::Candidate, eng.state.server_state);

    assert_eq!(
        vec![
            Command::SaveVote { vote: Vote::new(1, 1) },
            Command::SendVote {
                vote_req: VoteRequest::new(Vote::new(1, 1), Some(log_id(1, 1, 1)))
            },
        ],
        eng.output.take_commands()
    );
}

#[test]
fn joint_membership_needs_a_majority_of_each_list() {
    let mut eng = eng(node(1), Membership::new(vec![vec![1, 2, 3], vec![1, 4, 5, 5]], vec![6]));
    eng.elect(start(0));
    let candidate = eng.candidate.as_mut().unwrap();
    assert!(!candidate.grant_by(&1));
    assert!(!candidate.grant_by(&2));
    assert!(!candidate.grant_by(&2));
    assert!(!candidate.grant_by(&6), "a learner does not count");
    assert!(candidate.grant_by(&5));
}

#[test]
fn membership_tells_voters_from_learners() {
    let membership = Membership::new(vec![vec![1, 2, 2], vec![3]], vec![4, 4]);
    assert_eq!(&vec![vec![1, 2], vec![3]], membership.get_joint_config());
    for (id, voter, member) in [(1, true, true), (3, true, true), (4, false, true), (5, false, false)] {
        assert_eq!((voter, member), (membership.is_voter(&id), membership.contains(&id)));
    }
}

#[test]
fn votes_and_log_ids_are_ordered() {
    let votes = [
        Vote::new(1, 1),
        Vote::new_committed(1, 1),
        Vote::new(1, 2),
        Vote::new(2, 0),
        Vote::new_committed(2, 0),
    ];
    let ids = [log_id(1, 1, 9), log_id(1, 2, 3), log_id(1, 2, 4), log_id(2, 0, 0), log_id(2, 1, 0)];
    for i in 0..5 {
        for j in 0..5 {
            assert_eq!(i < j, votes[i].precedes(&votes[j]));
            assert_eq!(i == j, votes[i] == votes[j]);
            assert_eq!(i < j, ids[i].precedes(&ids[j]));
            assert_eq!(i == j, ids[i] == ids[j]);
        }
    }
}

#[test]
fn every_sample_gives_a_timeout_of_the_range() {
    for (min, max, sample, expected) in [
        (100, 104, u64::MAX, 103),
        (100, 104, (1 << 62) - 1, 100),
        (150, 300, 1 << 63, 225),
        (150, 300, u64::MAX, 299),
        (7, 8, u64::MAX, 7),
        (0, u64::MAX / 2, u64::MAX, u64::MAX / 2 - 1),
    ] {
        let config = Config {
            election_timeout_min: min,
            election_timeout_max: max,
            ..Default::default()
        };
        let mut engine = eng(EngineConfig::new(1, &config, 0), m12());
        assert_eq!(min, engine.config.timer_config.election_timeout);
        engine.elect(start(sample));
        assert_eq!(expected, engine.config.timer_config.election_timeout);
        assert_eq!(max, engine.config.timer_config.leader_lease);
    }
}

#[test]
fn draws_agree_with_uniform_sampling() {
    for sample in [0, 1 << 62, 1 << 63, 3 << 62, (1 << 62) + 12345] {
        let uniform = ScriptedRng(VecDeque::from([sample])).gen_range(100..104_u64);
        let config = EngineConfig::new(1_u64, &election_config(), sample);
        assert_eq!(uniform, config.timer_config.election_timeout);
    }
}
