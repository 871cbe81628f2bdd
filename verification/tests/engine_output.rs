//! The queue of commands and the coalescing of its commits.

use raft_engine::command::{Command, Condition, Entry, EntryPayload, Respond, Snapshot, SnapshotMeta};
use raft_engine::engine_output::EngineOutput;
use raft_engine::log_id::LogId;
use raft_engine::membership::{Membership, StoredMembership};
use raft_engine::sm;
use raft_engine::type_config::RaftTypeConfig;
use raft_engine::vote::{CommittedLeaderId, Vote};

#[derive(Debug, PartialEq)]
struct UTConfig;

impl RaftTypeConfig for UTConfig {
    type NodeId = u64;
    type D = ();
    type SnapshotData = Vec<u8>;
    type Reply = &'static str;
    type ReplySender = u64;
}

fn log_id(term: u64, node_id: u64, index: u64) -> LogId<u64> {
    LogId::new(CommittedLeaderId::new(term, node_id), index)
}

fn commit(seq: u64, since: u64, end: u64) -> Command<UTConfig> {
    Command::Commit {
        seq,
        already_committed: since.checked_sub(1).map(|i| log_id(1, 1, i)),
        upto: log_id(1, 1, end - 1),
    }
}

#[test]
fn bounded_apply_deferred_commits_remain_constant_size() {
    let mut output = EngineOutput::<UTConfig>::default();
    output.push_command(sm::Command::build_snapshot().into());
    for i in 1..=4096 {
        output.push_command(commit(i + 1, i, i + 1));
        output.coalesce_commits();
        assert_eq!(
            output.commands.len(),
            2,
            "BOUNDED_APPLY_DEFERRED_RANGE: one marker retains one successor range"
        );
    }
    assert_eq!(output.commands[1], commit(4097, 1, 4097));
}

#[test]
fn bounded_apply_coalesced_commit_stays_after_its_persistence() {
    let mut output = EngineOutput::<UTConfig>::default();
    output.push_command(commit(1, 0, 1));
    output.push_command(Command::SaveVote {
        vote: Vote::new_committed(2, 1),
    });
    output.push_command(Command::AppendInputEntries {
        vote: Vote::new_committed(2, 1),
        entries: vec![Entry {
            log_id: log_id(1, 1, 1),
            payload: EntryPayload::Blank,
        }],
    });
    output.push_command(commit(2, 1, 2));
    output.coalesce_commits();
    assert!(matches!(output.commands[0], Command::SaveVote { .. }));
    assert!(matches!(output.commands[1], Command::AppendInputEntries { .. }));
    assert_eq!(output.commands[2], commit(2, 0, 2));
}

fn barriers() -> Vec<Command<UTConfig>> {
    vec![
        sm::Command::build_snapshot().into(),
        sm::Command::begin_receiving_snapshot(1).into(),
        sm::Command::install_full_snapshot(Snapshot {
            meta: SnapshotMeta {
                last_log_id: None,
                last_membership: StoredMembership {
                    log_id: None,
                    membership: Membership::new(vec![], vec![]),
                },
                snapshot_id: String::new(),
            },
            snapshot: Box::default(),
        })
        .into(),
        Command::PurgeLog { upto: log_id(1, 1, 0) },
        Command::DeleteConflictLog { since: log_id(1, 1, 2) },
        Command::Respond {
            when: Some(Condition::StateMachineCommand { command_seq: 1 }),
            resp: Respond::new("success", 2),
        },
    ]
}

#[test]
fn bounded_apply_commit_coalescing_keeps_ordering_barriers() {
    for barrier in barriers() {
        let mut output = EngineOutput::<UTConfig>::default();
        output.push_command(commit(1, 0, 1));
        output.push_command(barrier);
        output.push_command(commit(3, 1, 2));
        output.coalesce_commits();
        assert_eq!(output.commands.len(), 3);
        assert_eq!(output.commands[0], commit(1, 0, 1));
        assert_eq!(output.commands[2], commit(3, 1, 2));
    }
}

#[test]
fn bounded_apply_commit_coalescing_rejects_gaps_overlap_and_sequence_reuse() {
    for next in [commit(2, 2, 3), commit(2, 0, 2), commit(1, 1, 2), commit(2, 1, 1)] {
        let mut output = EngineOutput::<UTConfig>::default();
        output.push_command(commit(1, 0, 1));
        output.push_command(next);
        output.coalesce_commits();
        assert_eq!(output.commands.len(), 2);
        assert_eq!(output.commands[0], commit(1, 0, 1));
    }
}

#[test]
fn commits_of_a_lower_leadership_do_not_coalesce() {
    let mut output = EngineOutput::<UTConfig>::default();
    output.push_command(Command::Commit {
        seq: 1,
        already_committed: None,
        upto: log_id(2, 1, 4),
    });
    output.push_command(Command::Commit {
        seq: 2,
        already_committed: Some(log_id(2, 1, 4)),
        upto: log_id(1, 9, 5),
    });
    output.coalesce_commits();
    assert_eq!(2, output.commands.len());
}

#[test]
fn commands_that_are_no_barrier_let_commits_coalesce_in_place() {
    let mut output = EngineOutput::<UTConfig>::default();
    let vote = Vote::new_committed(2, 1);
    output.push_command(commit(1, 0, 2));
    output.push_command(Command::BecomeLeader);
    output.push_command(commit(2, 2, 3));
    output.push_command(Command::Respond {
        when: None,
        resp: Respond::new("heartbeat", 7),
    });
    output.push_command(Command::SaveVote { vote: vote.clone() });
    output.push_command(commit(5, 3, 9));
    output.push_command(Command::QuitLeader);
    output.coalesce_commits();
    let expected = vec![
        Command::BecomeLeader,
        Command::Respond {
            when: None,
            resp: Respond::new("heartbeat", 7),
        },
        Command::SaveVote { vote },
        commit(5, 0, 9),
        Command::QuitLeader,
    ];
    assert_eq!(expected, output.take_commands());
}

#[test]
fn coalescing_twice_changes_nothing_and_intervals_are_independent() {
    let mut output = EngineOutput::<UTConfig>::default();
    for barrier in barriers() {
        let seq = output.commands.len() as u64 * 10;
        output.push_command(commit(seq + 1, seq + 1, seq + 2));
        output.push_command(commit(seq + 2, seq + 2, seq + 3));
        output.push_command(barrier);
    }
    output.coalesce_commits();
    assert_eq!(12, output.commands.len());
    let once = format!("{:?}", output.commands);
    output.coalesce_commits();
    assert_eq!(once, format!("{:?}", output.commands));
}

#[test]
fn state_machine_commands_are_numbered() {
    let mut output = EngineOutput::<UTConfig>::new(16);
    assert_eq!(0, output.last_sm_seq());
    output.push_command(sm::Command::build_snapshot().into());
    output.push_command(Command::BecomeLeader);
    output.push_command(sm::Command::begin_receiving_snapshot(3).into());
    assert_eq!(2, output.last_sm_seq());
    assert_eq!(3, output.next_sm_seq());
    assert_eq!(3, output.last_sm_seq());
    let seqs: Vec<Option<u64>> = output
        .iter_commands()
        .map(|command| match command {
            Command::StateMachine { command } => Some(command.seq),
            _ => None,
        })
        .collect();
    assert_eq!(vec![Some(1), None, Some(2)], seqs);
}

#[test]
fn commands_are_taken_and_put_back_at_their_place() {
    let mut output = EngineOutput::<UTConfig>::default();
    output.push_command(Command::BecomeLeader);
    output.push_command(commit(1, 0, 1));
    output.push_command(Command::QuitLeader);
    assert_eq!(None, output.pop_command(3));
    let command = output.pop_command(1).unwrap();
    assert_eq!(commit(1, 0, 1), command);
    assert_eq!(2, output.commands.len());
    output.postpone_command(1, command);
    assert_eq!(
        vec![Command::BecomeLeader, commit(1, 0, 1), Command::QuitLeader],
        output.take_commands()
    );
    assert!(output.take_commands().is_empty());
    output.push_command(Command::BecomeLeader);
    output.clear_commands();
    assert_eq!(0, output.iter_commands().count());
}
