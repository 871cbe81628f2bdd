//! What it means to coalesce the commits of a command queue, and what holds of
//! every coalesced queue.

use crate::command::Command;
use crate::log_id::{lemma_log_id_order, LogId};
use crate::type_config::RaftTypeConfig;
use vstd::prelude::*;

verus! {

/// The position of the last commit of a queue, unless a barrier follows it.
pub open spec fn open_commit<C: RaftTypeConfig>(queue: Seq<Command<C>>) -> Option<int>
    decreases queue.len(),
{
    if queue.len() == 0 {
        None
    } else if queue.last() is Commit {
        Some(queue.len() - 1)
    } else if queue.last().barrier() {
        None
    } else {
        open_commit(queue.drop_last())
    }
}

/// A coalesced queue after one more command: a commit that continues the open
/// commit replaces it, at the end of the queue; any other command is appended.
pub open spec fn absorbed<C: RaftTypeConfig>(
    queue: Seq<Command<C>>,
    next: Command<C>,
) -> Seq<Command<C>> {
    match open_commit(queue) {
        Some(p) => if queue[p].continued_by(next) {
            queue.remove(p).push(queue[p].joined_with(next))
        } else {
            queue.push(next)
        },
        None => queue.push(next),
    }
}

/// The queue with its commits coalesced.
pub open spec fn coalesced<C: RaftTypeConfig>(queue: Seq<Command<C>>) -> Seq<Command<C>>
    decreases queue.len(),
{
    if queue.len() == 0 {
        queue
    } else {
        absorbed(coalesced(queue.drop_last()), queue.last())
    }
}

/// The open commit is a commit of the queue, and neither a commit nor a
/// barrier stands after it.
pub proof fn lemma_open_commit<C: RaftTypeConfig>(queue: Seq<Command<C>>)
    ensures
        match open_commit(queue) {
            Some(p) => {
                &&& 0 <= p < queue.len()
                &&& queue[p] is Commit
                &&& forall|i: int|
                    p < i < queue.len() ==> !(#[trigger] queue[i] is Commit)
                        && !queue[i].barrier()
            },
            None => true,
        },
    decreases queue.len(),
{
    if queue.len() > 0 && !(queue.last() is Commit) && !queue.last().barrier() {
        let rest = queue.drop_last();
        lemma_open_commit(rest);
        if let Some(p) = open_commit(rest) {
            assert forall|i: int| p < i < queue.len() implies !(#[trigger] queue[i] is Commit)
                && !queue[i].barrier() by {
                if i < rest.len() {
                    assert(rest[i] == queue[i]);
                }
            }
        }
    }
}

/// The commands of a queue that are not commits, in order.
pub open spec fn without_commits<C: RaftTypeConfig>(queue: Seq<Command<C>>) -> Seq<Command<C>>
    decreases queue.len(),
{
    if queue.len() == 0 {
        queue
    } else if queue.last() is Commit {
        without_commits(queue.drop_last())
    } else {
        without_commits(queue.drop_last()).push(queue.last())
    }
}

proof fn lemma_without_commits_remove<C: RaftTypeConfig>(queue: Seq<Command<C>>, p: int)
    requires
        0 <= p < queue.len(),
        queue[p] is Commit,
    ensures
        without_commits(queue.remove(p)) == without_commits(queue),
    decreases queue.len(),
{
    if p == queue.len() - 1 {
        assert(queue.remove(p) == queue.drop_last());
    } else {
        lemma_without_commits_remove(queue.drop_last(), p);
        assert(queue.remove(p).drop_last() == queue.drop_last().remove(p));
        assert(queue.remove(p).last() == queue.last());
    }
}

/// Coalescing neither drops, adds, changes nor reorders a command that is not
/// a commit.
pub proof fn law_other_commands_keep_their_order<C: RaftTypeConfig>(queue: Seq<Command<C>>)
    ensures
        without_commits(coalesced(queue)) == without_commits(queue),
    decreases queue.len(),
{
    if queue.len() > 0 {
        let done = coalesced(queue.drop_last());
        let next = queue.last();
        law_other_commands_keep_their_order(queue.drop_last());
        lemma_open_commit(done);
        assert(done.push(next).drop_last() == done);
        if let Some(p) = open_commit(done) {
            if done[p].continued_by(next) {
                let kept = done.remove(p);
                let merged = kept.push(done[p].joined_with(next));
                assert(merged.drop_last() == kept);
                lemma_without_commits_remove(done, p);
            }
        }
    }
}

/// A commit stays behind everything that was queued before it: in the coalesced
/// queue it is still the last command, with its own end and sequence number.
pub proof fn law_commit_stays_after_its_dependencies<C: RaftTypeConfig>(
    queue: Seq<Command<C>>,
    commit: Command<C>,
)
    requires
        commit is Commit,
    ensures
        ({
            let last = coalesced(queue.push(commit)).last();
            &&& coalesced(queue.push(commit)).len() > 0
            &&& last is Commit
            &&& last->seq == commit->seq
            &&& last->Commit_upto == commit->Commit_upto
        }),
{
    assert(queue.push(commit).drop_last() == queue);
    lemma_open_commit(coalesced(queue));
}

proof fn lemma_open_commit_after_barrier<C: RaftTypeConfig>(
    head: Seq<Command<C>>,
    barrier: Command<C>,
    tail: Seq<Command<C>>,
)
    requires
        barrier.barrier(),
    ensures
        open_commit(head.push(barrier) + tail) == match open_commit(tail) {
            Some(p) => Some(head.len() + 1 + p),
            None => None,
        },
    decreases tail.len(),
{
    let whole = head.push(barrier) + tail;
    if tail.len() == 0 {
        assert(whole == head.push(barrier));
    } else {
        assert(whole.last() == tail.last());
        assert(whole.drop_last() == head.push(barrier) + tail.drop_last());
        lemma_open_commit_after_barrier(head, barrier, tail.drop_last());
    }
}

/// No commit moves across a barrier: what stands before a barrier and what
/// stands after it are coalesced apart, and the barrier stays between them.
pub proof fn law_barriers_keep_their_place<C: RaftTypeConfig>(
    head: Seq<Command<C>>,
    barrier: Command<C>,
    tail: Seq<Command<C>>,
)
    requires
        barrier.barrier(),
    ensures
        coalesced(head.push(barrier) + tail) == coalesced(head).push(barrier) + coalesced(tail),
    decreases tail.len(),
{
    let whole = head.push(barrier) + tail;
    let first = coalesced(head);
    if tail.len() == 0 {
        assert(whole == head.push(barrier));
        assert(head.push(barrier).drop_last() == head);
        assert(first.push(barrier) + coalesced(tail) == first.push(barrier));
    } else {
        let next = tail.last();
        let rest = coalesced(tail.drop_last());
        assert(whole.last() == next);
        assert(whole.drop_last() == head.push(barrier) + tail.drop_last());
        law_barriers_keep_their_place(head, barrier, tail.drop_last());
        let done = first.push(barrier) + rest;
        assert(coalesced(whole) == absorbed(done, next));
        lemma_open_commit_after_barrier(first, barrier, rest);
        lemma_open_commit(rest);
        match open_commit(rest) {
            Some(p) => {
                let q = first.len() + 1 + p;
                assert(done[q] == rest[p]);
                if rest[p].continued_by(next) {
                    let merged = rest[p].joined_with(next);
                    assert(done.remove(q).push(merged) =~= first.push(barrier) + rest.remove(
                        p,
                    ).push(merged));
                } else {
                    assert(done.push(next) =~= first.push(barrier) + rest.push(next));
                }
            },
            None => {
                assert(done.push(next) =~= first.push(barrier) + rest.push(next));
            },
        }
    }
}

/// The position of the first commit after the last barrier of a queue.
pub open spec fn first_open_commit<C: RaftTypeConfig>(queue: Seq<Command<C>>) -> Option<int>
    decreases queue.len(),
{
    if queue.len() == 0 || queue.last().barrier() {
        None
    } else {
        match first_open_commit(queue.drop_last()) {
            Some(first) => Some(first),
            None => if queue.last() is Commit {
                Some(queue.len() - 1)
            } else {
                None
            },
        }
    }
}

/// Each commit of the queue continues the commit before it, unless a barrier
/// stands between the two.
pub open spec fn contiguous<C: RaftTypeConfig>(queue: Seq<Command<C>>) -> bool
    decreases queue.len(),
{
    queue.len() > 0 ==> {
        &&& contiguous(queue.drop_last())
        &&& queue.last() is Commit ==> match open_commit(queue.drop_last()) {
            Some(p) => queue[p].continued_by(queue.last()),
            None => true,
        }
    }
}

/// At most one commit stands between two barriers.
pub open spec fn one_commit_per_interval<C: RaftTypeConfig>(queue: Seq<Command<C>>) -> bool {
    forall|i: int, j: int|
        #![trigger queue[i], queue[j]]
        0 <= i < j < queue.len() && queue[i] is Commit && queue[j] is Commit ==> exists|k: int|
            i < k < j && (#[trigger] queue[k]).barrier()
}

/// The open commit of the coalesced queue ends where the last open commit of
/// the queue ends, under the same sequence number.
proof fn lemma_open_commit_kept<C: RaftTypeConfig>(queue: Seq<Command<C>>)
    ensures
        match (open_commit(queue), open_commit(coalesced(queue))) {
            (Some(p), Some(q)) => {
                &&& queue[p]->seq == coalesced(queue)[q]->seq
                &&& queue[p]->Commit_upto == coalesced(queue)[q]->Commit_upto
            },
            (None, None) => true,
            _ => false,
        },
    decreases queue.len(),
{
    if queue.len() > 0 {
        let done = coalesced(queue.drop_last());
        let next = queue.last();
        lemma_open_commit_kept(queue.drop_last());
        lemma_open_commit(queue.drop_last());
        lemma_open_commit(done);
        assert(done.push(next).drop_last() == done);
    }
}

proof fn lemma_no_open_commit<C: RaftTypeConfig>(queue: Seq<Command<C>>, i: int)
    requires
        open_commit(queue) is None,
        0 <= i < queue.len(),
        queue[i] is Commit,
    ensures
        exists|k: int| i < k < queue.len() && (#[trigger] queue[k]).barrier(),
    decreases queue.len(),
{
    if queue.last().barrier() {
        assert(queue[queue.len() - 1].barrier());
    } else {
        lemma_no_open_commit(queue.drop_last(), i);
        let k = choose|k: int|
            i < k < queue.drop_last().len() && (#[trigger] queue.drop_last()[k]).barrier();
        assert(queue[k].barrier());
    }
}

/// Contiguous commits coalesce into one command for each interval between
/// barriers. The one that is still open has the start of the first commit of
/// its interval, and the end and the sequence number of the last one.
pub proof fn law_contiguous_commits_become_one<C: RaftTypeConfig>(queue: Seq<Command<C>>)
    requires
        contiguous(queue),
    ensures
        one_commit_per_interval(coalesced(queue)),
        match (open_commit(coalesced(queue)), first_open_commit(queue), open_commit(queue)) {
            (Some(p), Some(first), Some(last)) => coalesced(queue)[p] == queue[first].joined_with(
                queue[last],
            ),
            (None, None, None) => true,
            _ => false,
        },
    decreases queue.len(),
{
    if queue.len() > 0 {
        let rest = queue.drop_last();
        let done = coalesced(rest);
        let next = queue.last();
        law_contiguous_commits_become_one(rest);
        lemma_open_commit_kept(rest);
        lemma_open_commit(rest);
        lemma_open_commit(done);
        lemma_first_open_commit(rest);
        let result = coalesced(queue);
        if next is Commit && open_commit(done) is Some {
            let p = open_commit(done)->0;
            assert(done[p].continued_by(next));
            let merged = done[p].joined_with(next);
            assert(result == done.remove(p).push(merged));
            assert forall|i: int, j: int|
                #![trigger result[i], result[j]]
                0 <= i < j < result.len() && result[i] is Commit
                    && result[j] is Commit implies exists|k: int|
                i < k < j && (#[trigger] result[k]).barrier() by {
                let a = if i < p { i } else { i + 1 };
                assert(result[i] == done[a]);
                if a > p {
                    assert(!(done[a] is Commit));
                }
                let b = if j == result.len() - 1 { p } else if j < p { j } else { j + 1 };
                assert(done[b] is Commit) by {
                    if j < result.len() - 1 {
                        assert(result[j] == done[b]);
                    }
                }
                if b > p {
                    assert(!(done[b] is Commit));
                }
                let k = choose|k: int| a < k < b && (#[trigger] done[k]).barrier();
                assert(result[k] == done[k]);
            }
        } else {
            assert(result == done.push(next));
            assert(done.push(next).drop_last() == done);
            assert forall|i: int, j: int|
                #![trigger result[i], result[j]]
                0 <= i < j < result.len() && result[i] is Commit
                    && result[j] is Commit implies exists|k: int|
                i < k < j && (#[trigger] result[k]).barrier() by {
                assert(result[i] == done[i]);
                if j < done.len() {
                    assert(result[j] == done[j]);
                    let k = choose|k: int| i < k < j && (#[trigger] done[k]).barrier();
                    assert(result[k] == done[k]);
                } else {
                    lemma_no_open_commit(done, i);
                    let k = choose|k: int| i < k < done.len() && (#[trigger] done[k]).barrier();
                    assert(result[k] == done[k]);
                }
            }
        }
    }
}

proof fn lemma_first_open_commit<C: RaftTypeConfig>(queue: Seq<Command<C>>)
    ensures
        first_open_commit(queue) is Some <==> open_commit(queue) is Some,
        first_open_commit(queue) is Some ==> 0 <= first_open_commit(queue)->0 <= open_commit(
            queue,
        )->0 < queue.len() && queue[first_open_commit(queue)->0] is Commit,
    decreases queue.len(),
{
    if queue.len() > 0 {
        lemma_first_open_commit(queue.drop_last());
    }
}

/// A commit that continues the open range adds nothing to the length of the
/// coalesced queue, however many came before it.
pub proof fn law_deferred_range_has_constant_size<C: RaftTypeConfig>(
    queue: Seq<Command<C>>,
    commit: Command<C>,
)
    requires
        open_commit(queue) matches Some(p) && queue[p].continued_by(commit),
    ensures
        coalesced(queue.push(commit)).len() == coalesced(queue).len(),
{
    assert(queue.push(commit).drop_last() == queue);
    lemma_open_commit_kept(queue);
    lemma_open_commit(queue);
    lemma_open_commit(coalesced(queue));
}

/// The commits of a queue as the engine issues them: each one is a range with
/// at least one entry, and their sequence numbers increase.
pub open spec fn ordered<C: RaftTypeConfig>(queue: Seq<Command<C>>) -> bool {
    &&& forall|i: int| 0 <= i < queue.len() && queue[i] is Commit ==> nonempty(#[trigger] queue[i])
    &&& forall|i: int, j: int|
        0 <= i < j < queue.len() && queue[i] is Commit && queue[j] is Commit ==> (
        #[trigger] queue[i])->seq < (#[trigger] queue[j])->seq
}

/// The range of a commit holds at least one entry.
pub open spec fn nonempty<C: RaftTypeConfig>(commit: Command<C>) -> bool {
    match commit->already_committed {
        Some(start) => start.before(commit->Commit_upto) && start.index < commit->Commit_upto.index,
        None => true,
    }
}

/// The indexes of the entries that a commit applies.
pub open spec fn commit_range<C: RaftTypeConfig>(commit: Command<C>) -> Set<int> {
    let start: int = match commit->already_committed {
        Some(start) => start.index + 1,
        None => 0,
    };
    Set::new(|i: int| start <= i <= commit->Commit_upto.index)
}

/// The indexes of the entries that the commits of a queue apply.
pub open spec fn committed_entries<C: RaftTypeConfig>(queue: Seq<Command<C>>) -> Set<int>
    decreases queue.len(),
{
    if queue.len() == 0 {
        Set::empty()
    } else if queue.last() is Commit {
        committed_entries(queue.drop_last()).union(commit_range(queue.last()))
    } else {
        committed_entries(queue.drop_last())
    }
}

proof fn lemma_ordered_prefix<C: RaftTypeConfig>(queue: Seq<Command<C>>)
    requires
        ordered(queue),
        queue.len() > 0,
    ensures
        ordered(queue.drop_last()),
{
    let rest = queue.drop_last();
    assert forall|i: int| 0 <= i < rest.len() && rest[i] is Commit implies nonempty(
        #[trigger] rest[i],
    ) by {
        assert(rest[i] == queue[i]);
    }
    assert forall|i: int, j: int|
        0 <= i < j < rest.len() && rest[i] is Commit && rest[j] is Commit implies (
    #[trigger] rest[i])->seq < (#[trigger] rest[j])->seq by {
        assert(rest[i] == queue[i] && rest[j] == queue[j]);
    }
}

/// Each commit of the coalesced queue has the sequence number of a commit of
/// the queue.
proof fn lemma_seq_kept<C: RaftTypeConfig>(queue: Seq<Command<C>>, i: int) -> (j: int)
    requires
        0 <= i < coalesced(queue).len(),
        coalesced(queue)[i] is Commit,
    ensures
        0 <= j < queue.len(),
        queue[j] is Commit,
        queue[j]->seq == coalesced(queue)[i]->seq,
    decreases queue.len(),
{
    let rest = queue.drop_last();
    let done = coalesced(rest);
    lemma_open_commit(done);
    if i == coalesced(queue).len() - 1 {
        queue.len() - 1
    } else {
        let p = open_commit(done);
        let merged = p is Some && done[p->0].continued_by(queue.last());
        let a = if merged && i >= p->0 { i + 1 } else { i };
        assert(coalesced(queue)[i] == done[a]);
        lemma_seq_kept(rest, a)
    }
}

/// Coalescing keeps the commits ordered.
proof fn lemma_ordered_kept<C: RaftTypeConfig>(queue: Seq<Command<C>>)
    requires
        ordered(queue),
    ensures
        ordered(coalesced(queue)),
    decreases queue.len(),
{
    if queue.len() > 0 {
        let rest = queue.drop_last();
        let done = coalesced(rest);
        let next = queue.last();
        let result = coalesced(queue);
        lemma_ordered_prefix(queue);
        lemma_ordered_kept(rest);
        lemma_open_commit(done);
        assert forall|i: int| 0 <= i < done.len() && done[i] is Commit && next is Commit implies (
        #[trigger] done[i])->seq < next->seq by {
            let j = lemma_seq_kept(rest, i);
            assert(rest[j] == queue[j]);
            assert(queue[queue.len() - 1] == next);
        }
        let open = open_commit(done);
        let merged = open is Some && done[open->0].continued_by(next);
        if merged {
            let p = open->0;
            let joined = done[p].joined_with(next);
            assert(nonempty(joined)) by {
                assert(nonempty(done[p]));
                if let Some(start) = done[p]->already_committed {
                    lemma_log_id_order(start, done[p]->Commit_upto, next->Commit_upto);
                }
            }
        }
        assert forall|i: int| 0 <= i < result.len() && result[i] is Commit implies nonempty(
            #[trigger] result[i],
        ) by {
            if i < result.len() - 1 {
                let a = if merged && i >= open->0 { i + 1 } else { i };
                assert(result[i] == done[a]);
            } else {
                assert(queue[queue.len() - 1] == next);
            }
        }
        assert forall|i: int, j: int|
            0 <= i < j < result.len() && result[i] is Commit && result[j] is Commit implies (
        #[trigger] result[i])->seq < (#[trigger] result[j])->seq by {
            let a = if merged && i >= open->0 { i + 1 } else { i };
            assert(result[i] == done[a]);
            if j < result.len() - 1 {
                let b = if merged && j >= open->0 { j + 1 } else { j };
                assert(result[j] == done[b]);
            }
        }
    }
}

proof fn lemma_committed_entries_remove<C: RaftTypeConfig>(queue: Seq<Command<C>>, p: int)
    requires
        0 <= p < queue.len(),
        queue[p] is Commit,
    ensures
        committed_entries(queue) == committed_entries(queue.remove(p)).union(
            commit_range(queue[p]),
        ),
    decreases queue.len(),
{
    if p == queue.len() - 1 {
        assert(queue.remove(p) == queue.drop_last());
    } else {
        let rest = queue.drop_last();
        lemma_committed_entries_remove(rest, p);
        assert(queue.remove(p).drop_last() == rest.remove(p));
        assert(queue.remove(p).last() == queue.last());
        assert(committed_entries(queue) =~= committed_entries(queue.remove(p)).union(
            commit_range(queue[p]),
        ));
    }
}

/// No commit of the queue ends before it starts.
pub open spec fn no_commit_reversed<C: RaftTypeConfig>(queue: Seq<Command<C>>) -> bool {
    forall|i: int|
        0 <= i < queue.len() && queue[i] is Commit ==> ((
        #[trigger] queue[i])->already_committed matches Some(start) ==> start.index
            <= queue[i]->Commit_upto.index)
}

proof fn lemma_no_commit_reversed_kept<C: RaftTypeConfig>(queue: Seq<Command<C>>)
    requires
        no_commit_reversed(queue),
    ensures
        no_commit_reversed(coalesced(queue)),
    decreases queue.len(),
{
    if queue.len() > 0 {
        let rest = queue.drop_last();
        let done = coalesced(rest);
        let next = queue.last();
        assert(forall|i: int| 0 <= i < rest.len() ==> #[trigger] rest[i] == queue[i]);
        lemma_no_commit_reversed_kept(rest);
        lemma_open_commit(done);
        let open = open_commit(done);
        let merged = open is Some && done[open->0].continued_by(next);
        let result = coalesced(queue);
        assert(queue[queue.len() - 1] == next);
        assert forall|i: int| 0 <= i < result.len() && result[i] is Commit implies ((
        #[trigger] result[i])->already_committed matches Some(start) ==> start.index
            <= result[i]->Commit_upto.index) by {
            if i < result.len() - 1 {
                let a = if merged && i >= open->0 { i + 1 } else { i };
                assert(result[i] == done[a]);
            } else if merged {
                assert(result[i] == done[open->0].joined_with(next));
            }
        }
    }
}

/// If no commit ends before it starts, coalescing neither loses an entry that
/// was committed nor adds one that was not.
pub proof fn law_coalescing_commits_the_same_entries<C: RaftTypeConfig>(queue: Seq<Command<C>>)
    requires
        no_commit_reversed(queue),
    ensures
        committed_entries(coalesced(queue)) == committed_entries(queue),
    decreases queue.len(),
{
    if queue.len() > 0 {
        let rest = queue.drop_last();
        let done = coalesced(rest);
        let next = queue.last();
        assert(forall|i: int| 0 <= i < rest.len() ==> #[trigger] rest[i] == queue[i]);
        law_coalescing_commits_the_same_entries(rest);
        lemma_no_commit_reversed_kept(rest);
        lemma_open_commit(done);
        assert(done.push(next).drop_last() == done);
        if let Some(p) = open_commit(done) {
            if done[p].continued_by(next) {
                let joined = done[p].joined_with(next);
                let kept = done.remove(p);
                assert(kept.push(joined).drop_last() == kept);
                lemma_committed_entries_remove(done, p);
                assert(commit_range(joined) =~= commit_range(done[p]).union(commit_range(next)));
                assert(committed_entries(kept.push(joined)) =~= committed_entries(done).union(
                    commit_range(next),
                ));
            }
        }
    }
}

/// No commit of the queue continues the open commit before it.
spec fn settled<C: RaftTypeConfig>(queue: Seq<Command<C>>) -> bool
    decreases queue.len(),
{
    queue.len() > 0 ==> {
        &&& settled(queue.drop_last())
        &&& match open_commit(queue.drop_last()) {
            Some(p) => !queue[p].continued_by(queue.last()),
            None => true,
        }
    }
}

proof fn lemma_settled_is_coalesced<C: RaftTypeConfig>(queue: Seq<Command<C>>)
    requires
        settled(queue),
    ensures
        coalesced(queue) == queue,
    decreases queue.len(),
{
    if queue.len() > 0 {
        lemma_settled_is_coalesced(queue.drop_last());
        lemma_open_commit(queue.drop_last());
        assert(queue.drop_last().push(queue.last()) == queue);
    }
}

/// Without its open commit, a settled queue is still settled, and the commit
/// that is open then was not continued by the one taken out.
proof fn lemma_settled_remove<C: RaftTypeConfig>(queue: Seq<Command<C>>, p: int)
    requires
        settled(queue),
        open_commit(queue) == Some(p),
    ensures
        settled(queue.remove(p)),
        open_commit(queue.remove(p)) == open_commit(queue.take(p)),
        open_commit(queue.take(p)) matches Some(q) ==> !queue[q].continued_by(queue[p]),
    decreases queue.len(),
{
    lemma_open_commit(queue);
    if p == queue.len() - 1 {
        assert(queue.remove(p) == queue.drop_last());
        assert(queue.take(p) == queue.drop_last());
    } else {
        let rest = queue.drop_last();
        lemma_settled_remove(rest, p);
        let removed = queue.remove(p);
        assert(removed.drop_last() == rest.remove(p));
        assert(removed.last() == queue.last());
        assert(rest.take(p) == queue.take(p));
        assert(queue[queue.len() - 1] == queue.last());
        lemma_open_commit(queue.take(p));
    }
}

proof fn lemma_coalesced_is_settled<C: RaftTypeConfig>(queue: Seq<Command<C>>)
    requires
        ordered(queue),
    ensures
        settled(coalesced(queue)),
    decreases queue.len(),
{
    if queue.len() > 0 {
        let rest = queue.drop_last();
        let done = coalesced(rest);
        let next = queue.last();
        lemma_ordered_prefix(queue);
        lemma_coalesced_is_settled(rest);
        lemma_ordered_kept(rest);
        lemma_open_commit(done);
        assert(done.push(next).drop_last() == done);
        if let Some(p) = open_commit(done) {
            if done[p].continued_by(next) {
                let joined = done[p].joined_with(next);
                let kept = done.remove(p);
                assert(kept.push(joined).drop_last() == kept);
                lemma_settled_remove(done, p);
                lemma_open_commit(done.take(p));
                if let Some(q) = open_commit(kept) {
                    assert(done.take(p)[q] == done[q]);
                    assert(kept[q] == done[q]);
                    assert(nonempty(done[p]));
                    assert(done[q]->seq < done[p]->seq);
                    assert(!done[q].continued_by(joined));
                }
            }
        }
    }
}

/// Coalescing a coalesced queue changes nothing, if its commits are such as
/// the engine issues.
pub proof fn law_coalescing_is_idempotent<C: RaftTypeConfig>(queue: Seq<Command<C>>)
    requires
        ordered(queue),
    ensures
        coalesced(coalesced(queue)) == coalesced(queue),
{
    lemma_coalesced_is_settled(queue);
    lemma_settled_is_coalesced(coalesced(queue));
}

/// A state machine command, a command that removes log entries, and an answer
/// that waits for a condition, whichever it is, keep the commits before them
/// apart from those after them.
pub proof fn law_writes_removals_and_conditions_part_commits<C: RaftTypeConfig>(
    head: Seq<Command<C>>,
    command: Command<C>,
    tail: Seq<Command<C>>,
)
    requires
        match command {
            Command::StateMachine { .. } => true,
            Command::PurgeLog { .. } => true,
            Command::DeleteConflictLog { .. } => true,
            Command::Respond { when: Some(_), .. } => true,
            _ => false,
        },
    ensures
        coalesced(head.push(command) + tail) == coalesced(head).push(command) + coalesced(tail),
{
    law_barriers_keep_their_place(head, command, tail);
}

proof fn lemma_open_commit_is<C: RaftTypeConfig>(queue: Seq<Command<C>>, p: int)
    requires
        0 <= p < queue.len(),
        queue[p] is Commit,
        forall|i: int|
            p < i < queue.len() ==> !(#[trigger] queue[i] is Commit) && !queue[i].barrier(),
    ensures
        open_commit(queue) == Some(p),
    decreases queue.len(),
{
    if p < queue.len() - 1 {
        assert(!(queue[queue.len() - 1] is Commit));
        lemma_open_commit_is(queue.drop_last(), p);
    }
}

/// A commit that is queued behind a commit with nothing in between that parts
/// them takes its place, if it is a later command and its entries go on, to a
/// greater log id, where the entries of the other end: it keeps its own end and
/// number and gets the start of the other. Otherwise both stay.
pub proof fn law_commit_joins_exactly_what_it_continues<C: RaftTypeConfig>(
    queue: Seq<Command<C>>,
    p: int,
    seq: u64,
    start: Option<LogId<C::NodeId>>,
    upto: LogId<C::NodeId>,
)
    requires
        0 <= p < coalesced(queue).len(),
        coalesced(queue)[p] is Commit,
        forall|i: int|
            p < i < coalesced(queue).len() ==> match #[trigger] coalesced(queue)[i] {
                Command::Commit { .. } => false,
                Command::StateMachine { .. } => false,
                Command::PurgeLog { .. } => false,
                Command::DeleteConflictLog { .. } => false,
                Command::Respond { when, .. } => when is None,
                _ => true,
            },
    ensures
        ({
            let done = coalesced(queue);
            let next = Command::<C>::Commit { seq, already_committed: start, upto };
            match done[p] {
                Command::Commit { seq: seq0, already_committed: start0, upto: upto0 } => coalesced(
                    queue.push(next),
                ) == if seq0 < seq && start == Some(upto0) && upto0.before(upto) && upto0.index
                    < upto.index {
                    done.remove(p).push(Command::Commit { seq, already_committed: start0, upto })
                } else {
                    done.push(next)
                },
                _ => false,
            }
        }),
{
    let next = Command::<C>::Commit { seq, already_committed: start, upto };
    assert(queue.push(next).drop_last() == queue);
    lemma_open_commit_is(coalesced(queue), p);
}

/// A commit is queued as it is where every commit before it is parted from it.
pub proof fn law_parted_commit_is_queued_as_it_is<C: RaftTypeConfig>(
    queue: Seq<Command<C>>,
    commit: Command<C>,
)
    requires
        commit is Commit,
        forall|p: int|
            0 <= p < coalesced(queue).len() && #[trigger] coalesced(queue)[p] is Commit ==> exists|
                k: int,
            |
                p < k < coalesced(queue).len() && match #[trigger] coalesced(queue)[k] {
                    Command::StateMachine { .. } => true,
                    Command::PurgeLog { .. } => true,
                    Command::DeleteConflictLog { .. } => true,
                    Command::Respond { when, .. } => when is Some,
                    _ => false,
                },
    ensures
        coalesced(queue.push(commit)) == coalesced(queue).push(commit),
{
    let done = coalesced(queue);
    assert(queue.push(commit).drop_last() == queue);
    lemma_open_commit(done);
    if let Some(p) = open_commit(done) {
        assert(coalesced(queue)[p] is Commit);
        let k = choose|k: int|
            p < k < coalesced(queue).len() && match #[trigger] coalesced(queue)[k] {
                Command::StateMachine { .. } => true,
                Command::PurgeLog { .. } => true,
                Command::DeleteConflictLog { .. } => true,
                Command::Respond { when, .. } => when is Some,
                _ => false,
            };
        assert(done[k].barrier());
    }
}

/// A command that is not a commit is queued as it is, and leaves the queue
/// before it as it was.
pub proof fn law_other_command_is_queued_as_it_is<C: RaftTypeConfig>(
    queue: Seq<Command<C>>,
    command: Command<C>,
)
    requires
        !(command is Commit),
    ensures
        coalesced(queue.push(command)) == coalesced(queue).push(command),
        coalesced(Seq::<Command<C>>::empty()).len() == 0,
{
    let done = coalesced(queue);
    assert(queue.push(command).drop_last() == queue);
    lemma_open_commit(done);
}

proof fn lemma_coalesced_without_commits<C: RaftTypeConfig>(
    head: Seq<Command<C>>,
    rest: Seq<Command<C>>,
)
    requires
        forall|i: int| 0 <= i < rest.len() ==> !(#[trigger] rest[i] is Commit),
    ensures
        coalesced(head + rest) == coalesced(head) + rest,
    decreases rest.len(),
{
    if rest.len() == 0 {
        assert(head + rest =~= head);
        assert(coalesced(head) + rest =~= coalesced(head));
    } else {
        let fewer = rest.drop_last();
        assert(!(rest[rest.len() - 1] is Commit));
        lemma_coalesced_without_commits(head, fewer);
        law_other_command_is_queued_as_it_is(head + fewer, rest.last());
        assert((head + fewer).push(rest.last()) =~= head + rest);
        assert((coalesced(head) + fewer).push(rest.last()) =~= coalesced(head) + rest);
    }
}

/// Two contiguous commits become one behind whatever stands between them, if
/// that is neither a commit, nor a state machine command, nor a command that
/// removes log entries, nor an answer that waits for a condition.
pub proof fn law_contiguous_commits_join_across_other_commands<C: RaftTypeConfig>(
    seq: u64,
    start: Option<LogId<C::NodeId>>,
    middle: LogId<C::NodeId>,
    between: Seq<Command<C>>,
    next_seq: u64,
    upto: LogId<C::NodeId>,
)
    requires
        seq < next_seq,
        middle.before(upto),
        middle.index < upto.index,
        forall|i: int|
            0 <= i < between.len() ==> match #[trigger] between[i] {
                Command::Commit { .. } => false,
                Command::StateMachine { .. } => false,
                Command::PurgeLog { .. } => false,
                Command::DeleteConflictLog { .. } => false,
                Command::Respond { when, .. } => when is None,
                _ => true,
            },
    ensures
        ({
            let first = Command::<C>::Commit { seq, already_committed: start, upto: middle };
            let second = Command::<C>::Commit {
                seq: next_seq,
                already_committed: Some(middle),
                upto,
            };
            coalesced((seq![first] + between).push(second)) == between.push(
                Command::Commit { seq: next_seq, already_committed: start, upto },
            )
        }),
{
    let first = Command::<C>::Commit { seq, already_committed: start, upto: middle };
    let head = seq![first];
    let queue = head + between;
    assert(head.drop_last() =~= Seq::empty());
    assert(coalesced(head.drop_last()) =~= Seq::empty());
    assert(coalesced(head) =~= head);
    lemma_coalesced_without_commits(head, between);
    assert(coalesced(queue) =~= queue);
    assert forall|i: int| 0 < i < coalesced(queue).len() implies match #[trigger] coalesced(
        queue,
    )[i] {
        Command::Commit { .. } => false,
        Command::StateMachine { .. } => false,
        Command::PurgeLog { .. } => false,
        Command::DeleteConflictLog { .. } => false,
        Command::Respond { when, .. } => when is None,
        _ => true,
    } by {
        assert(coalesced(queue)[i] == between[i - 1]);
    }
    law_commit_joins_exactly_what_it_continues(queue, 0, next_seq, Some(middle), upto);
    assert(queue.remove(0) =~= between);
}

} // verus!
