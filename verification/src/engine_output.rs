//! The queue of commands from the engine to its runtime.

use crate::coalescing::{absorbed, coalesced, lemma_open_commit, open_commit};
use crate::command::Command;
use crate::sm::CommandSeq;
use crate::type_config::RaftTypeConfig;
use std::collections::vec_deque;
use std::collections::VecDeque;
use vstd::prelude::*;
use vstd::std_specs::iter::IteratorSpec;

verus! {

/// The output of the engine.
#[derive(Debug)]
pub struct EngineOutput<C: RaftTypeConfig> {
    /// The last sequence number given to a state machine command.
    pub seq: CommandSeq,
    /// The commands that the runtime has still to run, first one first.
    pub commands: VecDeque<Command<C>>,
}

impl<C: RaftTypeConfig> EngineOutput<C> {
    /// What `push_command` puts into the queue: a state machine command gets
    /// the next sequence number.
    pub open spec fn numbered(self, cmd: Command<C>) -> Command<C> {
        match cmd {
            Command::StateMachine { command } => Command::StateMachine {
                command: crate::sm::Command { seq: (self.seq + 1) as u64, ..command },
            },
            _ => cmd,
        }
    }

    /// Generate the next sequence number for a state machine command.
    pub fn next_sm_seq(&mut self) -> (r: CommandSeq)
        requires
            old(self).seq < u64::MAX,
        ensures
            r == old(self).seq + 1,
            final(self).seq == r,
            final(self).commands == old(self).commands,
    {
        self.seq = self.seq + 1;
        self.seq
    }

    /// The last sequence number that was given to a state machine command.
    pub fn last_sm_seq(&self) -> (r: CommandSeq)
        ensures
            r == self.seq,
    {
        self.seq
    }

    /// An empty queue with room for `command_buffer_size` commands.
    pub fn new(command_buffer_size: usize) -> (r: Self)
        ensures
            r.seq == 0,
            r.commands@ == Seq::<Command<C>>::empty(),
    {
        EngineOutput { seq: 0, commands: VecDeque::with_capacity(command_buffer_size) }
    }

    /// Push a command to the queue.
    pub fn push_command(&mut self, cmd: Command<C>)
        requires
            cmd is StateMachine ==> old(self).seq < u64::MAX,
        ensures
            final(self).commands@ == old(self).commands@.push(old(self).numbered(cmd)),
            final(self).seq == if cmd is StateMachine {
                old(self).seq + 1
            } else {
                old(self).seq as int
            },
    {
        let cmd = match cmd {
            Command::StateMachine { mut command } => {
                let seq: CommandSeq = self.next_sm_seq();
                command.set_seq(seq);
                Command::StateMachine { command }
            },
            cmd => cmd,
        };
        self.commands.push_back(cmd);
    }

    /// Put back a command at its original position in the queue.
    ///
    /// This is for a command that is not ready to be run.
    pub fn postpone_command(&mut self, index: usize, cmd: Command<C>)
        requires
            index <= old(self).commands@.len(),
        ensures
            final(self).commands@ == old(self).commands@.insert(index as int, cmd),
            final(self).seq == old(self).seq,
    {
        self.commands.insert(index, cmd);
    }

    /// Take the command at `index`, leaving any earlier deferred commands in
    /// place.
    pub fn pop_command(&mut self, index: usize) -> (r: Option<Command<C>>)
        ensures
            index < old(self).commands@.len() ==> r == Some(old(self).commands@[index as int])
                && final(self).commands@ == old(self).commands@.remove(index as int),
            index >= old(self).commands@.len() ==> r is None && final(self).commands@ == old(
                self,
            ).commands@,
            final(self).seq == old(self).seq,
    {
        self.commands.remove(index)
    }

    /// Coalesce deferred commits without crossing an ordering barrier.
    ///
    /// The combined range stays at the latest commit's position, after all its
    /// append and vote dependencies. One scalar range is kept per interval
    /// between barriers, even if a blocked snapshot receives many successor
    /// commits. Independently requested state machine operations still occupy
    /// their own places: this bounds neither the queue nor API admission.
    pub fn coalesce_commits(&mut self)
        ensures
            final(self).commands@ == coalesced(old(self).commands@),
            final(self).seq == old(self).seq,
    {
        let ghost queue = self.commands@;
        let ghost mut seen: int = 0;
        let mut previous: Option<usize> = None;
        let mut index: usize = 0;
        proof {
            assert(queue.take(0) == Seq::<Command<C>>::empty());
            assert(coalesced(queue.take(0)) + queue.skip(0) == queue);
        }
        while index < self.commands.len()
            invariant
                0 <= seen <= queue.len(),
                queue == old(self).commands@,
                self.seq == old(self).seq,
                self.commands@ == coalesced(queue.take(seen)) + queue.skip(seen),
                index == coalesced(queue.take(seen)).len(),
                match previous {
                    Some(prior) => open_commit(coalesced(queue.take(seen))) == Some(prior as int),
                    None => open_commit(coalesced(queue.take(seen))) is None,
                },
            decreases queue.len() - seen,
        {
            let ghost done = coalesced(queue.take(seen));
            let ghost next = queue[seen];
            proof {
                lemma_open_commit(done);
                assert(seen < queue.len());
                assert(self.commands@[index as int] == next);
                assert(queue.take(seen + 1).drop_last() == queue.take(seen));
                assert(coalesced(queue.take(seen + 1)) == absorbed(done, next));
                assert(queue.skip(seen) == seq![next] + queue.skip(seen + 1));
            }
            let merge = match previous {
                Some(prior) => self.commands[prior].is_continued_by(&self.commands[index]),
                None => false,
            };
            if merge {
                let prior: usize = previous.unwrap();
                let first = self.commands.remove(prior);
                index -= 1;
                let last = self.commands.remove(index);
                if let (
                    Some(Command::Commit { already_committed, .. }),
                    Some(Command::Commit { seq, upto, .. }),
                ) = (first, last) {
                    self.commands.insert(index, Command::Commit { seq, already_committed, upto });
                }
                proof {
                    let merged = done[prior as int].joined_with(next);
                    assert(self.commands@ =~= done.remove(prior as int).push(merged) + queue.skip(
                        seen + 1,
                    ));
                    assert(done.remove(prior as int).push(merged).last() == merged);
                }
                previous = Some(index);
            } else {
                proof {
                    assert(done.push(next).drop_last() == done);
                    assert(self.commands@ =~= done.push(next) + queue.skip(seen + 1));
                }
                if self.commands[index].is_commit() {
                    previous = Some(index);
                } else if self.commands[index].is_barrier() {
                    previous = None;
                }
            }
            index += 1;
            proof {
                seen = seen + 1;
            }
        }
        proof {
            assert(queue.skip(seen).len() == 0);
            assert(queue.take(seen) == queue);
            assert(self.commands@ =~= coalesced(queue));
        }
    }

    /// Iterate all queued commands, first one first.
    pub fn iter_commands(&self) -> (r: vec_deque::Iter<'_, Command<C>>)
        ensures
            r.remaining() == self.commands@.as_ref(),
    {
        self.commands.iter()
    }

    /// Take all queued commands and clear the queue.
    pub fn take_commands(&mut self) -> (r: Vec<Command<C>>)
        ensures
            r@ == old(self).commands@,
            final(self).commands@ == Seq::<Command<C>>::empty(),
            final(self).seq == old(self).seq,
    {
        let ghost queue = self.commands@;
        let mut taken: Vec<Command<C>> = Vec::new();
        while self.commands.len() > 0
            invariant
                taken@ + self.commands@ == queue,
                queue == old(self).commands@,
                self.seq == old(self).seq,
            decreases self.commands.len(),
        {
            let ghost rest = self.commands@;
            if let Some(cmd) = self.commands.pop_front() {
                taken.push(cmd);
            }
            assert(taken@ + self.commands@ =~= queue);
        }
        assert(taken@ =~= queue);
        taken
    }

    /// Clear all queued commands.
    pub fn clear_commands(&mut self)
        ensures
            final(self).commands@ == Seq::<Command<C>>::empty(),
            final(self).seq == old(self).seq,
    {
        self.commands.clear();
    }
}

impl<C: RaftTypeConfig> Default for EngineOutput<C> {
    /// An empty queue, before any sequence number was given.
    fn default() -> (r: Self)
        ensures
            r.seq == 0,
            r.commands@ == Seq::<Command<C>>::empty(),
    {
        EngineOutput::new(0)
    }
}

/// Every state machine command of the queue was numbered, and the numbers grow
/// from one such command to the next.
pub open spec fn numbers_increase<C: RaftTypeConfig>(
    seq: CommandSeq,
    commands: Seq<Command<C>>,
) -> bool {
    &&& forall|i: int|
        0 <= i < commands.len() ==> (#[trigger] commands[i] matches Command::StateMachine { command }
            ==> 0 < command.seq <= seq)
    &&& forall|i: int, j: int|
        0 <= i < j < commands.len() ==> (#[trigger] commands[i] matches Command::StateMachine {
            command: first,
        } ==> #[trigger] commands[j] matches Command::StateMachine { command: second } ==> first.seq
            < second.seq)
}

/// Pushing a command keeps the numbers of the state machine commands growing.
pub proof fn law_pushed_numbers_increase<C: RaftTypeConfig>(
    output: EngineOutput<C>,
    cmd: Command<C>,
)
    requires
        numbers_increase(output.seq, output.commands@),
        cmd is StateMachine ==> output.seq < u64::MAX,
    ensures
        numbers_increase(
            if cmd is StateMachine {
                (output.seq + 1) as u64
            } else {
                output.seq
            },
            output.commands@.push(output.numbered(cmd)),
        ),
{
}

/// Putting a command back where it was taken from restores the queue.
pub proof fn law_postponing_undoes_taking<C: RaftTypeConfig>(queue: Seq<Command<C>>, index: int)
    requires
        0 <= index < queue.len(),
    ensures
        queue.remove(index).insert(index, queue[index]) == queue,
{
    assert(queue.remove(index).insert(index, queue[index]) =~= queue);
}

/// Numbering a command changes nothing but the number: a state machine command
/// keeps what it asks for and gets the number after the last one, and any other
/// command is queued as it is.
pub proof fn law_numbering_changes_only_the_number<C: RaftTypeConfig>(
    output: EngineOutput<C>,
    command: crate::sm::Command<C>,
    other: Command<C>,
)
    requires
        output.seq < u64::MAX,
        !(other is StateMachine),
    ensures
        output.numbered(other) == other,
        output.numbered(Command::StateMachine { command }) is StateMachine,
        output.numbered(Command::StateMachine { command })->command.payload == command.payload,
        output.numbered(Command::StateMachine { command })->command.seq == output.seq + 1,
{
}

} // verus!
