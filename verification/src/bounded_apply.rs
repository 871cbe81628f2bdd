//! Constant-size bookkeeping for an opt-in paged committed prefix.
//!
//! The core owns one active range and one coalesced pending range. It sends only
//! one page to the state machine, then consumes that page's response before
//! loading another. Commands that order state-machine writes or remove logs
//! remain barriers in the engine's output queue.

use crate::config::NonZeroU64;
use vstd::prelude::*;

verus! {

/// The committed entries from index `next` up to, and without, index `end`,
/// which the state machine command `seq` has still to apply.
#[derive(Clone, Copy, Debug, PartialEq, Eq, Structural)]
pub struct Range {
    pub seq: u64,
    pub next: u64,
    pub end: u64,
}

/// The committed ranges that are still to be applied, and the page of them that
/// the state machine worker owns.
#[derive(Debug)]
pub struct BoundedApply {
    active: Option<Range>,
    pending: Option<Range>,
    in_flight_end: Option<u64>,
}

/// The bookkeeping as mathematical values.
pub struct BoundedApplyView {
    /// The range that is being applied.
    pub active: Option<Range>,
    /// The range that follows the active one.
    pub pending: Option<Range>,
    /// Where the page ends that the worker owns; it starts where the active
    /// range does.
    pub in_flight_end: Option<u64>,
}

/// The indexes from `since` up to, and without, `end`.
pub open spec fn entries(since: int, end: int) -> Seq<int> {
    Seq::new((end - since) as nat, |i: int| since + i)
}

impl BoundedApplyView {
    /// Nothing to apply.
    pub open spec fn idle() -> Self {
        BoundedApplyView { active: None, pending: None, in_flight_end: None }
    }

    /// The ranges are not empty, the pending one continues the active one under
    /// a later command, and the page is a nonempty prefix of the active range.
    pub open spec fn valid(self) -> bool {
        match self.active {
            None => self.pending is None && self.in_flight_end is None,
            Some(active) => {
                &&& active.next < active.end
                &&& match self.pending {
                    None => true,
                    Some(pending) => {
                        &&& pending.next == active.end
                        &&& pending.next < pending.end
                        &&& active.seq < pending.seq
                    },
                }
                &&& match self.in_flight_end {
                    None => true,
                    Some(end) => active.next < end <= active.end,
                }
            },
        }
    }

    /// The last range.
    pub open spec fn last(self) -> Option<Range> {
        if self.pending is Some {
            self.pending
        } else {
            self.active
        }
    }

    /// The indexes that are still to be applied, in the order in which they
    /// have to be.
    pub open spec fn outstanding(self) -> Seq<int> {
        match self.active {
            None => Seq::empty(),
            Some(active) => entries(active.next as int, self.last()->0.end as int),
        }
    }

    /// Whether a committed range can be added: it is not empty, and it continues
    /// the last range under a later command, if there is one.
    pub open spec fn accepts(self, seq: u64, since: u64, end: u64) -> bool {
        &&& since < end
        &&& self.last() matches Some(last) ==> last.end == since && last.seq < seq
    }

    /// The bookkeeping with a committed range added. The first range becomes
    /// active, the second one pending, and every further one extends the
    /// pending one, which takes its command sequence number.
    pub open spec fn added(self, seq: u64, since: u64, end: u64) -> Self {
        match (self.active, self.pending) {
            (None, _) => BoundedApplyView { active: Some(Range { seq, next: since, end }), ..self },
            (Some(_), None) => BoundedApplyView {
                pending: Some(Range { seq, next: since, end }),
                ..self
            },
            (Some(_), Some(pending)) => BoundedApplyView {
                pending: Some(Range { seq, next: pending.next, end }),
                ..self
            },
        }
    }

    /// The next page to read: the command that it belongs to and the indexes
    /// between which it lies. There is none while a page is with the worker.
    pub open spec fn page(self, limit: u64) -> Option<(u64, u64, u64)> {
        match self.active {
            Some(active) => if self.in_flight_end is Some {
                None
            } else if active.end - active.next <= limit {
                Some((active.seq, active.next, active.end))
            } else {
                Some((active.seq, active.next, (active.next + limit) as u64))
            },
            None => None,
        }
    }

    /// Whether a page that ends at `end` can go to the worker: none is there,
    /// and it is a nonempty prefix of the active range.
    pub open spec fn sendable(self, end: u64) -> bool {
        self.active matches Some(active) && self.in_flight_end is None && active.next < end
            <= active.end
    }

    /// Whether exactly this page of exactly this command is with the worker.
    pub open spec fn owned_by_worker(self, seq: u64, since: u64, end: u64) -> bool {
        self.active matches Some(active) && active.seq == seq && active.next == since
            && self.in_flight_end == Some(end)
    }

    /// The bookkeeping after the page with the worker was applied. After the
    /// last page of the active range the pending range becomes active.
    pub open spec fn completed(self) -> Self {
        let active = self.active->0;
        let end = self.in_flight_end->0;
        if end == active.end {
            BoundedApplyView { active: self.pending, pending: None, in_flight_end: None }
        } else {
            BoundedApplyView {
                active: Some(Range { next: end, ..active }),
                in_flight_end: None,
                ..self
            }
        }
    }
}

impl View for BoundedApply {
    type V = BoundedApplyView;

    closed spec fn view(&self) -> BoundedApplyView {
        BoundedApplyView {
            active: self.active,
            pending: self.pending,
            in_flight_end: self.in_flight_end,
        }
    }
}

impl BoundedApply {
    #[verifier::type_invariant]
    spec fn is_valid(self) -> bool {
        self@.valid()
    }

    /// Whether anything is still to be applied.
    pub fn is_pending(&self) -> (r: bool)
        ensures
            r == (self@.outstanding().len() > 0),
            r == (self@.active is Some),
    {
        proof {
            use_type_invariant(self);
        }
        self.active.is_some()
    }

    /// The coalesced range that follows the active one.
    pub fn pending(&self) -> (r: Option<Range>)
        ensures
            r == self@.pending,
    {
        self.pending
    }

    /// Enqueue only a committed range; never store entries or per-entry metadata.
    /// Adjacent commits may coalesce only before another state machine or
    /// log-removal barrier.
    pub fn enqueue(&mut self, seq: u64, since: u64, end: u64) -> (r: Result<(), &'static str>)
        ensures
            final(self)@.valid(),
            r is Ok <==> old(self)@.accepts(seq, since, end),
            r is Ok ==> final(self)@ == old(self)@.added(seq, since, end),
            r matches Err(message) ==> *final(self) == *old(self) && message@ == if since >= end {
                "empty or reversed bounded apply range"@
            } else {
                "noncontiguous or unordered bounded apply range"@
            },
    {
        proof {
            use_type_invariant(&*self);
        }
        if since >= end {
            return Err("empty or reversed bounded apply range");
        }
        let next = Range { seq, next: since, end };
        match (self.active, self.pending) {
            (None, _) => {
                self.active = Some(next);
            },
            (Some(active), None) => {
                if active.end != since || active.seq >= seq {
                    return Err("noncontiguous or unordered bounded apply range");
                }
                self.pending = Some(next);
            },
            (Some(_), Some(pending)) => {
                if pending.end != since || pending.seq >= seq {
                    return Err("noncontiguous or unordered bounded apply range");
                }
                self.pending = Some(Range { seq, end, ..pending });
            },
        }
        Ok(())
    }

    /// `None` while a page (including its response) is still owned by the worker.
    pub fn next_page(&self, limit: NonZeroU64) -> (r: Option<(u64, u64, u64)>)
        ensures
            r == self@.page(limit@),
    {
        proof {
            use_type_invariant(self);
        }
        if self.in_flight_end.is_some() {
            return None;
        }
        match self.active {
            None => None,
            Some(range) => {
                let bound: u64 = range.next.saturating_add(limit.get());
                let end: u64 = if bound < range.end {
                    bound
                } else {
                    range.end
                };
                Some((range.seq, range.next, end))
            },
        }
    }

    /// The limited reader can return fewer entries because of its byte budget.
    pub fn sent_page(&mut self, end: u64) -> (r: Result<(), &'static str>)
        ensures
            final(self)@.valid(),
            r is Ok <==> old(self)@.sendable(end),
            r is Ok ==> final(self)@ == (BoundedApplyView {
                in_flight_end: Some(end),
                ..old(self)@
            }),
            r matches Err(message) ==> *final(self) == *old(self) && message@ == if old(
                self,
            )@.active is None {
                "missing bounded apply range"@
            } else {
                "invalid bounded apply page dispatch"@
            },
    {
        proof {
            use_type_invariant(&*self);
        }
        let range = match self.active {
            Some(range) => range,
            None => {
                return Err("missing bounded apply range");
            },
        };
        if self.in_flight_end.is_some() || end <= range.next || end > range.end {
            return Err("invalid bounded apply page dispatch");
        }
        self.in_flight_end = Some(end);
        Ok(())
    }

    /// Return a completed command sequence only after its complete range applies.
    /// The caller consumes every response before driving the next page.
    pub fn complete_page(&mut self, seq: u64, since: u64, end: u64) -> (r: Result<
        Option<u64>,
        &'static str,
    >)
        ensures
            final(self)@.valid(),
            r is Ok <==> old(self)@.owned_by_worker(seq, since, end),
            r matches Ok(done) ==> {
                &&& final(self)@ == old(self)@.completed()
                &&& done == if end == old(self)@.active->0.end {
                    Some(seq)
                } else {
                    None
                }
            },
            r matches Err(message) ==> *final(self) == *old(self) && message@ == if old(
                self,
            )@.active is None {
                "unexpected bounded apply completion"@
            } else {
                "unordered bounded apply completion"@
            },
    {
        proof {
            use_type_invariant(&*self);
        }
        let range = match self.active {
            Some(range) => range,
            None => {
                return Err("unexpected bounded apply completion");
            },
        };
        if range.seq != seq || range.next != since || self.in_flight_end != Some(end) {
            return Err("unordered bounded apply completion");
        }
        if end == range.end {
            *self = BoundedApply { active: self.pending, pending: None, in_flight_end: None };
            Ok(Some(seq))
        } else {
            *self =
            BoundedApply {
                active: Some(Range { next: end, ..range }),
                pending: self.pending,
                in_flight_end: None,
            };
            Ok(None)
        }
    }
}

impl Clone for BoundedApply {
    fn clone(&self) -> (r: Self)
        ensures
            r == *self,
    {
        proof {
            use_type_invariant(self);
        }
        BoundedApply {
            active: self.active,
            pending: self.pending,
            in_flight_end: self.in_flight_end,
        }
    }
}

impl Default for BoundedApply {
    /// Nothing to apply.
    fn default() -> (r: Self)
        ensures
            r@ == BoundedApplyView::idle(),
    {
        BoundedApply { active: None, pending: None, in_flight_end: None }
    }
}

/// What happens to the bookkeeping.
pub enum ApplyEvent {
    /// A range was committed.
    Committed { seq: u64, since: u64, end: u64 },
    /// A page went to the worker.
    Sent { end: u64 },
    /// The worker has applied a page.
    Applied { seq: u64, since: u64, end: u64 },
}

impl ApplyEvent {
    /// Whether the bookkeeping takes the event.
    pub open spec fn taken_by(self, apply: BoundedApplyView) -> bool {
        match self {
            ApplyEvent::Committed { seq, since, end } => apply.accepts(seq, since, end),
            ApplyEvent::Sent { end } => apply.sendable(end),
            ApplyEvent::Applied { seq, since, end } => apply.owned_by_worker(seq, since, end),
        }
    }
}

impl BoundedApplyView {
    /// The bookkeeping after an event; one that it does not take changes
    /// nothing.
    pub open spec fn after(self, event: ApplyEvent) -> Self {
        if !event.taken_by(self) {
            self
        } else {
            match event {
                ApplyEvent::Committed { seq, since, end } => self.added(seq, since, end),
                ApplyEvent::Sent { end } => BoundedApplyView { in_flight_end: Some(end), ..self },
                ApplyEvent::Applied { .. } => self.completed(),
            }
        }
    }
}

/// The bookkeeping after a history, from the start.
pub open spec fn after_history(history: Seq<ApplyEvent>) -> BoundedApplyView
    decreases history.len(),
{
    if history.len() == 0 {
        BoundedApplyView::idle()
    } else {
        after_history(history.drop_last()).after(history.last())
    }
}

/// The indexes that were committed in a history, in order.
pub open spec fn committed_in(history: Seq<ApplyEvent>) -> Seq<int>
    decreases history.len(),
{
    if history.len() == 0 {
        Seq::empty()
    } else {
        let before = committed_in(history.drop_last());
        match history.last() {
            ApplyEvent::Committed { since, end, .. } => if history.last().taken_by(
                after_history(history.drop_last()),
            ) {
                before + entries(since as int, end as int)
            } else {
                before
            },
            _ => before,
        }
    }
}

/// The indexes that were applied in a history, in order.
pub open spec fn applied_in(history: Seq<ApplyEvent>) -> Seq<int>
    decreases history.len(),
{
    if history.len() == 0 {
        Seq::empty()
    } else {
        let before = applied_in(history.drop_last());
        match history.last() {
            ApplyEvent::Applied { since, end, .. } => if history.last().taken_by(
                after_history(history.drop_last()),
            ) {
                before + entries(since as int, end as int)
            } else {
                before
            },
            _ => before,
        }
    }
}

/// Every event keeps the bookkeeping valid.
pub proof fn law_every_state_is_valid(history: Seq<ApplyEvent>)
    ensures
        after_history(history).valid(),
    decreases history.len(),
{
    if history.len() > 0 {
        law_every_state_is_valid(history.drop_last());
    }
}

/// Whatever happens, the committed indexes are those that were applied, in the
/// order in which they were applied, and then those that are outstanding: each
/// committed entry is applied once, in order, and no other one is.
pub proof fn law_entries_apply_once_and_in_order(history: Seq<ApplyEvent>)
    ensures
        applied_in(history) + after_history(history).outstanding() == committed_in(history),
    decreases history.len(),
{
    if history.len() == 0 {
        assert(applied_in(history) + after_history(history).outstanding() =~= committed_in(
            history,
        ));
    } else {
        let earlier = history.drop_last();
        let before = after_history(earlier);
        let after = after_history(history);
        law_entries_apply_once_and_in_order(earlier);
        law_every_state_is_valid(earlier);
        if history.last().taken_by(before) {
            match history.last() {
                ApplyEvent::Committed { since, end, .. } => {
                    assert(after.outstanding() =~= before.outstanding() + entries(
                        since as int,
                        end as int,
                    ));
                },
                ApplyEvent::Sent { .. } => {
                    assert(after.outstanding() =~= before.outstanding());
                },
                ApplyEvent::Applied { since, end, .. } => {
                    assert(before.outstanding() =~= entries(since as int, end as int)
                        + after.outstanding());
                },
            }
        }
        assert(applied_in(history) + after.outstanding() =~= committed_in(history));
    }
}

/// The next page holds at most `limit` entries, at least one, and exactly the
/// first ones that are outstanding. Every nonempty prefix of it can be sent.
pub proof fn law_page_is_a_bounded_prefix(apply: BoundedApplyView, limit: u64)
    requires
        apply.valid(),
        limit > 0,
    ensures
        apply.page(limit) matches Some((seq, since, end)) ==> {
            &&& 0 < end - since <= limit
            &&& entries(since as int, end as int).is_prefix_of(apply.outstanding())
            &&& forall|short: u64| since < short <= end ==> #[trigger] apply.sendable(short)
        },
        apply.page(limit) is Some <==> apply.outstanding().len() > 0 && apply.in_flight_end is None,
{
    if let Some((seq, since, end)) = apply.page(limit) {
        let page = entries(since as int, end as int);
        assert(page =~= apply.outstanding().take(page.len() as int));
    }
}

/// A page that was sent is with the worker until exactly its own completion:
/// before that there is no next page, and nothing else can be sent.
pub proof fn law_one_page_at_a_time(apply: BoundedApplyView, sent: u64, limit: u64, event: ApplyEvent)
    requires
        apply.valid(),
        apply.sendable(sent),
    ensures
        ({
            let owned = apply.after(ApplyEvent::Sent { end: sent });
            &&& owned.page(limit) is None
            &&& forall|end: u64| !#[trigger] owned.sendable(end)
            &&& ApplyEvent::Applied {
                seq: apply.active->0.seq,
                since: apply.active->0.next,
                end: sent,
            }.taken_by(owned)
            &&& owned.after(event).in_flight_end == Some(sent) || event == ApplyEvent::Applied {
                seq: apply.active->0.seq,
                since: apply.active->0.next,
                end: sent,
            }
        }),
{
}

/// A command is reported complete with the page after which none of its range
/// is outstanding, and with no earlier one.
pub proof fn law_command_completes_with_its_last_page(apply: BoundedApplyView, end: u64)
    requires
        apply.valid(),
        apply.in_flight_end == Some(end),
    ensures
        ({
            let active = apply.active->0;
            let after = apply.completed();
            &&& end == active.end ==> (after.active matches Some(next) ==> next.seq > active.seq)
            &&& end == active.end ==> after.active == apply.pending
            &&& end != active.end ==> after.active == Some(Range { next: end, ..active })
            &&& after.outstanding().len() < apply.outstanding().len()
        }),
{
}

impl BoundedApplyView {
    /// The bookkeeping after a page was sent and applied.
    pub open spec fn after_page(self, page: (u64, u64, u64)) -> Self {
        self.after(ApplyEvent::Sent { end: page.2 }).after(
            ApplyEvent::Applied { seq: page.0, since: page.1, end: page.2 },
        )
    }

    /// The bookkeeping after pages were sent and applied, one after the other.
    pub open spec fn after_pages(self, list: Seq<(u64, u64, u64)>) -> Self
        decreases list.len(),
    {
        if list.len() == 0 {
            self
        } else {
            self.after_page(list[0]).after_pages(list.drop_first())
        }
    }

    /// Each page of the list is the next one with this limit, or a nonempty
    /// beginning of it, where the reader returned fewer entries.
    pub open spec fn read_as(self, limit: u64, list: Seq<(u64, u64, u64)>) -> bool
        decreases list.len(),
    {
        list.len() > 0 ==> {
            &&& self.page(limit) matches Some((seq, since, end)) && list[0].0 == seq && list[0].1
                == since && since < list[0].2 <= end
            &&& self.after_page(list[0]).read_as(limit, list.drop_first())
        }
    }
}

/// The indexes on a list of pages.
pub open spec fn pages_entries(list: Seq<(u64, u64, u64)>) -> Seq<int>
    decreases list.len(),
{
    if list.len() == 0 {
        Seq::empty()
    } else {
        entries(list[0].1 as int, list[0].2 as int) + pages_entries(list.drop_first())
    }
}

/// Pages that are read, sent and applied one after the other apply what is
/// outstanding, in order, however short the reader cuts each of them: what
/// they leave is outstanding still, there is a next page as long as anything
/// is, and there are no more pages than entries.
pub proof fn law_pages_drain_what_is_outstanding(
    apply: BoundedApplyView,
    limit: u64,
    list: Seq<(u64, u64, u64)>,
)
    requires
        apply.valid(),
        limit > 0,
        apply.in_flight_end is None,
        apply.read_as(limit, list),
    ensures
        pages_entries(list) + apply.after_pages(list).outstanding() == apply.outstanding(),
        apply.after_pages(list).page(limit) is None <==> pages_entries(list) == apply.outstanding(),
        list.len() <= apply.outstanding().len(),
        apply.after_pages(list).valid(),
        apply.after_pages(list).in_flight_end is None,
    decreases list.len(),
{
    let after = apply.after_pages(list);
    if list.len() > 0 {
        let page = list[0];
        let rest = apply.after_page(page);
        assert(apply.sendable(page.2));
        assert(rest.valid() && rest.in_flight_end is None);
        law_pages_drain_what_is_outstanding(rest, limit, list.drop_first());
        assert(apply.outstanding() =~= entries(page.1 as int, page.2 as int) + rest.outstanding());
        assert(pages_entries(list) + after.outstanding() =~= apply.outstanding());
    } else {
        assert(pages_entries(list) + after.outstanding() =~= apply.outstanding());
    }
    law_page_is_a_bounded_prefix(after, limit);
    if after.outstanding().len() == 0 {
        assert(pages_entries(list) =~= apply.outstanding());
    } else {
        assert(pages_entries(list).len() < apply.outstanding().len());
    }
}

/// With nothing to apply every range that is not empty is taken, and becomes
/// what is applied next, under its own number.
pub proof fn law_idle_takes_any_range(seq: u64, since: u64, end: u64)
    requires
        since < end,
    ensures
        BoundedApplyView::idle().accepts(seq, since, end),
        BoundedApplyView::idle().added(seq, since, end).active == Some(
            Range { seq, next: since, end },
        ),
        BoundedApplyView::idle().added(seq, since, end).pending is None,
        BoundedApplyView::idle().added(seq, since, end).in_flight_end is None,
        BoundedApplyView::idle().outstanding().len() == 0,
{
}

/// With something to apply a range is taken exactly if it starts where the last
/// range ends, is not empty and has a greater number than the last one. Neither
/// the range that is being applied nor the page with the worker changes, and
/// the pending range ends, and is numbered, as the new one.
pub proof fn law_only_contiguous_later_ranges_are_taken(
    apply: BoundedApplyView,
    seq: u64,
    since: u64,
    end: u64,
)
    requires
        apply.valid(),
        apply.active is Some,
    ensures
        ({
            let last = if apply.pending is Some {
                apply.pending->0
            } else {
                apply.active->0
            };
            let first = if apply.pending is Some {
                apply.pending->0.next
            } else {
                since
            };
            &&& since >= end ==> !apply.accepts(seq, since, end)
            &&& since != last.end ==> !apply.accepts(seq, since, end)
            &&& seq <= last.seq ==> !apply.accepts(seq, since, end)
            &&& since < end && since == last.end && seq > last.seq ==> apply.accepts(
                seq,
                since,
                end,
            )
            &&& apply.added(seq, since, end).active == apply.active
            &&& apply.added(seq, since, end).in_flight_end == apply.in_flight_end
            &&& apply.added(seq, since, end).pending == Some(Range { seq, next: first, end })
        }),
{
}

/// A page is as long as the limit allows: it ends with the active range, or
/// holds exactly as many entries as the limit. It belongs to the command of the
/// active range.
pub proof fn law_page_is_as_long_as_allowed(apply: BoundedApplyView, limit: u64)
    requires
        apply.valid(),
        limit > 0,
        apply.active is Some,
        apply.in_flight_end is None,
    ensures
        apply.page(limit) matches Some((seq, since, end)) && seq == apply.active->0.seq && since
            == apply.active->0.next && (end == apply.active->0.end || end - since == limit) && end
            <= apply.active->0.end && end - since <= limit,
{
}

/// Exactly the nonempty beginnings of the active range can be sent, while
/// nothing is with the worker.
pub proof fn law_beginnings_of_the_range_can_be_sent(apply: BoundedApplyView, end: u64)
    requires
        apply.valid(),
    ensures
        apply.active is None ==> !apply.sendable(end),
        apply.in_flight_end is Some ==> !apply.sendable(end),
        apply.active is Some && apply.in_flight_end is None ==> (apply.sendable(end)
            <==> apply.active->0.next < end && end <= apply.active->0.end),
{
}

/// Only the very page that was sent completes: another command, start or end
/// does not, and nothing completes while nothing is with the worker.
pub proof fn law_only_the_sent_page_completes(
    apply: BoundedApplyView,
    sent: u64,
    seq: u64,
    since: u64,
    end: u64,
)
    requires
        apply.valid(),
        apply.active is Some,
    ensures
        apply.in_flight_end is None ==> !apply.owned_by_worker(seq, since, end),
        (BoundedApplyView { in_flight_end: Some(sent), ..apply }).owned_by_worker(seq, since, end)
            <==> seq == apply.active->0.seq && since == apply.active->0.next && end == sent,
        !BoundedApplyView::idle().owned_by_worker(seq, since, end),
{
}

/// A completed page leaves the worker free, and everything behind the page as
/// it was.
pub proof fn law_completion_frees_the_worker(apply: BoundedApplyView, end: u64)
    requires
        apply.valid(),
        apply.in_flight_end == Some(end),
    ensures
        apply.completed().valid(),
        apply.completed().in_flight_end is None,
        apply.completed().outstanding() == apply.outstanding().skip(end - apply.active->0.next),
        end < apply.active->0.end ==> apply.completed().pending == apply.pending
            && apply.completed().active == Some(
            Range { seq: apply.active->0.seq, next: end, end: apply.active->0.end },
        ),
        end == apply.active->0.end ==> apply.completed().active == apply.pending
            && apply.completed().pending is None,
{
    assert(apply.completed().outstanding() =~= apply.outstanding().skip(
        end - apply.active->0.next,
    ));
}

} // verus!
