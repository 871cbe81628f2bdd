//! What holds of planned handoffs and of retirement, whatever else happens to
//! the engines.

use crate::command::Command;
use crate::engine::{
    law_drawn_timeout_is_in_range, timeout_of, CampaignStart, EngineConfig, EngineView,
    ForwardToLeader, TimerConfig,
};
use crate::leadership::Leader;
use crate::leadership_transfer::PreparedShutdown;
use crate::log_id::{log_before, LogId};
use crate::membership::MembershipState;
use crate::raft_state::{IOState, Instant, LeasedVote, LogIdList, RaftState, ServerState};
use crate::transfer_leader::{TransferLeaderError, TransferLeaderRequest};
use crate::type_config::RaftTypeConfig;
use crate::vote::{lemma_vote_order, Vote};
use crate::vote_message::{VoteRequest, VoteResponse};
use vstd::prelude::*;

verus! {

/// What happens to an engine.
#[verifier::reject_recursive_types(C)]
pub enum EngineEvent<C: RaftTypeConfig> {
    /// It is time to campaign.
    Elect { start: CampaignStart },
    /// A message showed some vote.
    SeenVote { vote: Vote<C::NodeId>, now: Instant },
    /// A candidate asked for a vote.
    VoteRequested { req: VoteRequest<C::NodeId>, now: Instant },
    /// A voter answered.
    VoteAnswered { target: C::NodeId, resp: VoteResponse<C::NodeId>, now: Instant },
    /// The application asked to hand over the leadership.
    Begin { successor: C::NodeId },
    /// The application asked to prepare for shutdown.
    Prepare { to: Option<C::NodeId> },
    /// A handoff request arrived.
    Handoff { request: TransferLeaderRequest<C::NodeId>, start: CampaignStart },
    /// The node went on with everything but votes: entries were accepted,
    /// replicated, committed, applied or removed, the membership changed, or
    /// the runtime took or was given commands.
    Progressed { progress: Progress<C> },
}

/// What a node has besides its vote, its leadership and its retirement.
#[verifier::reject_recursive_types(C)]
pub struct Progress<C: RaftTypeConfig> {
    pub committed: Option<LogId<C::NodeId>>,
    pub log_ids: LogIdList<C::NodeId>,
    pub membership_state: MembershipState<C::NodeId>,
    pub io_state: IOState<C::NodeId>,
    /// The last entry that the node accepted as the leader, if it leads.
    pub accepted: Option<LogId<C::NodeId>>,
    pub seq: u64,
    pub commands: Seq<Command<C>>,
}

impl<C: RaftTypeConfig> EngineView<C> {
    /// The engine after an event.
    pub open spec fn after(self, event: EngineEvent<C>) -> Self {
        match event {
            EngineEvent::Elect { start } => self.after_elect(start),
            EngineEvent::SeenVote { vote, now } => self.after_seen_vote(vote, now),
            EngineEvent::VoteRequested { req, now } => self.after_vote_req(req, now),
            EngineEvent::VoteAnswered { target, resp, now } => self.after_vote_resp(
                target,
                resp,
                now,
            ),
            EngineEvent::Begin { successor } => self.after_begin(successor),
            EngineEvent::Prepare { to } => self.after_prepare(to),
            EngineEvent::Handoff { request, start } => self.after_handoff(request, start),
            EngineEvent::Progressed { progress } => self.after_progress(progress),
        }
    }

    /// The engine with its log, membership and commands replaced, and its role
    /// adjusted to them.
    pub open spec fn after_progress(self, progress: Progress<C>) -> Self {
        EngineView {
            state: RaftState {
                committed: progress.committed,
                log_ids: progress.log_ids,
                membership_state: progress.membership_state,
                io_state: progress.io_state,
                ..self.state
            },
            leader: match self.leader {
                Some(leader) => Some(Leader { last_log_id: progress.accepted, ..leader }),
                None => None,
            },
            seq: progress.seq,
            commands: progress.commands,
            ..self
        }.with_role()
    }

    /// What holds of every engine: it leads only under committed votes for
    /// itself, has the role of a leader only while it holds a vote for itself,
    /// and does not campaign once it is retiring.
    pub open spec fn valid(self) -> bool {
        &&& self.leader matches Some(leader) ==> leader.vote.committed
            && leader.vote.leader_id.node_id == self.id()
        &&& self.state.server_state is Leader ==> self.vote().leader_id.node_id == self.id()
        &&& self.retiring() ==> self.candidate is None
    }

    /// The engine after a history.
    pub open spec fn after_all(self, history: Seq<EngineEvent<C>>) -> Self
        decreases history.len(),
    {
        if history.len() == 0 {
            self
        } else {
            self.after_all(history.drop_last()).after(history.last())
        }
    }
}

proof fn lemma_vote_keeps_engines_valid<C: RaftTypeConfig>(
    engine: EngineView<C>,
    vote: Vote<C::NodeId>,
    now: Instant,
)
    requires
        engine.valid(),
    ensures
        engine.after_vote(vote, now).valid(),
        engine.after_seen_vote(vote, now).valid(),
{
    let voted = engine.with_vote(vote, now);
    assert(voted.leader == engine.leader);
    assert(voted.candidate == engine.candidate);
    assert(voted.prepared_shutdown == engine.prepared_shutdown);
    if voted.state.leads(voted.id()) {
        let leading = EngineView { leader: Some(voted.leadership()), candidate: None, ..voted };
        assert(leading.with_role().valid());
    } else if !voted.state.leading(voted.id()) {
        let following = EngineView { leader: None, candidate: None, ..voted };
        assert(following.with_role().valid());
    }
}

proof fn lemma_campaign_keeps_engines_valid<C: RaftTypeConfig>(
    engine: EngineView<C>,
    start: CampaignStart,
)
    requires
        engine.valid(),
    ensures
        engine.after_elect(start).valid(),
{
    if !engine.retiring() {
        lemma_vote_keeps_engines_valid(engine.with_campaign(start), engine.next_vote(), start.now);
    }
}

/// A new engine is valid, unless it is told to be the leader under the vote of
/// another node.
pub proof fn law_new_engine_is_valid<C: RaftTypeConfig>(
    state: RaftState<C::NodeId>,
    config: EngineConfig<C::NodeId>,
)
    requires
        state.server_state is Leader ==> state.vote.vote.leader_id.node_id == config.id,
    ensures
        (EngineView::<C> {
            config,
            state,
            leader: None,
            candidate: None,
            prepared_shutdown: None,
            seq: 0,
            commands: Seq::empty(),
        }).valid(),
{
}

/// Every event keeps an engine valid.
pub proof fn law_every_event_keeps_engines_valid<C: RaftTypeConfig>(
    engine: EngineView<C>,
    event: EngineEvent<C>,
)
    requires
        engine.valid(),
    ensures
        engine.after(event).valid(),
{
    match event {
        EngineEvent::Elect { start } => {
            lemma_campaign_keeps_engines_valid(engine, start);
        },
        EngineEvent::SeenVote { vote, now } => {
            lemma_vote_keeps_engines_valid(engine, vote, now);
        },
        EngineEvent::VoteRequested { req, now } => {
            lemma_vote_keeps_engines_valid(engine, req.vote, now);
        },
        EngineEvent::VoteAnswered { target, resp, now } => {
            if let Some(candidate) = engine.candidate {
                let won = EngineView { candidate: None, ..engine };
                let vote = Vote { committed: true, ..candidate.vote };
                lemma_vote_keeps_engines_valid(engine, resp.vote, now);
                lemma_vote_keeps_engines_valid(won, vote, now);
            }
        },
        EngineEvent::Begin { .. } => {},
        EngineEvent::Prepare { .. } => {},
        EngineEvent::Handoff { request, start } => {
            lemma_campaign_keeps_engines_valid(engine.with_lease_released(), start);
        },
        EngineEvent::Progressed { .. } => {},
    }
}

/// Beginning a handoff stops admission in favour of the successor and releases
/// the lease. It changes neither the vote nor when it was confirmed, nor the
/// log, the membership or the role, and it asks the runtime for nothing.
pub proof fn law_begin_stops_admission_and_keeps_the_rest<C: RaftTypeConfig>(
    engine: EngineView<C>,
    to: C::NodeId,
)
    requires
        engine.begin_result(to) is Ok,
    ensures
        ({
            let after = engine.after_begin(to);
            &&& after.admission() == Err::<(), _>(
                ForwardToLeader::<C::NodeId> { leader_id: Some(to) },
            )
            &&& after.state.vote.lease_disabled
            &&& after.vote() == engine.vote()
            &&& after.state.vote.last_update == engine.state.vote.last_update
            &&& after.state.committed == engine.state.committed
            &&& after.state.log_ids == engine.state.log_ids
            &&& after.state.membership_state == engine.state.membership_state
            &&& after.state.io_state == engine.state.io_state
            &&& after.state.server_state == engine.state.server_state
            &&& after.candidate == engine.candidate
            &&& after.commands == engine.commands
        }),
{
}

/// A request binds the committed vote of the issuing leader, the committed
/// membership, and the last entry that the leader accepted; its target is
/// another voter.
pub proof fn law_request_is_bound_to_vote_membership_and_log<C: RaftTypeConfig>(
    engine: EngineView<C>,
    to: C::NodeId,
)
    requires
        engine.begin_result(to) is Ok,
    ensures
        ({
            let request = engine.begin_result(to)->Ok_0;
            &&& request.from == engine.vote() && request.from.committed
            &&& request.to == to && to != engine.id() && engine.is_voter(to)
            &&& request.last_log_id == engine.leader->0.last_log_id
            &&& request.membership_log_id == engine.state.membership_state.committed.log_id
        }),
{
}

/// Beginning the same handoff again returns the same request and changes
/// nothing; a handoff to any other node is refused.
pub proof fn law_begin_is_idempotent_and_exclusive<C: RaftTypeConfig>(
    engine: EngineView<C>,
    to: C::NodeId,
    other: C::NodeId,
)
    requires
        engine.begin_result(to) is Ok,
        other != to,
    ensures
        ({
            let after = engine.after_begin(to);
            &&& after.begin_result(to) == engine.begin_result(to)
            &&& after.after_begin(to) == after
            &&& after.begin_result(other) is Err
            &&& engine.begin_result(other) is Ok ==> after.begin_result(other) == Err::<
                TransferLeaderRequest<C::NodeId>,
                _,
            >(TransferLeaderError::TransferInProgress)
        }),
{
}

/// Beginning a handoff does not retire a node: it admits again under a
/// committed vote for itself of a later term.
pub proof fn law_begin_does_not_retire<C: RaftTypeConfig>(
    engine: EngineView<C>,
    to: C::NodeId,
    vote: Vote<C::NodeId>,
    now: Instant,
)
    requires
        engine.begin_result(to) is Ok,
        engine.prepared_shutdown is None,
        vote.committed,
        vote.leader_id.node_id == engine.id(),
        vote.leader_id.term > engine.vote().leader_id.term,
    ensures
        !engine.after_begin(to).retiring(),
        engine.after_begin(to).after_seen_vote(vote, now).admission() is Ok,
{
    let begun = engine.after_begin(to);
    lemma_vote_order(begun.vote(), vote, begun.vote());
    let voted = begun.with_vote(vote, now);
    assert(voted.state.membership_state == engine.state.membership_state);
    assert(voted.state.leads(engine.id()));
}

/// The issuing leader accepts its own request once it has stopped admission,
/// and does not campaign.
pub proof fn law_issuer_accepts_its_request_and_does_not_campaign<C: RaftTypeConfig>(
    engine: EngineView<C>,
    to: C::NodeId,
    start: CampaignStart,
)
    requires
        engine.valid(),
        engine.begin_result(to) is Ok,
    ensures
        ({
            let request = engine.begin_result(to)->Ok_0;
            let after = engine.after_begin(to);
            &&& after.handoff_refusal(request) is None
            &&& after.after_handoff(request, start) == after
        }),
{
}

/// Before it has stopped admission, the issuing leader refuses its own
/// request, so that no delivery can release its lease.
pub proof fn law_unprepared_issuer_refuses<C: RaftTypeConfig>(
    engine: EngineView<C>,
    to: C::NodeId,
)
    requires
        engine.valid(),
        engine.begin_result(to) is Ok,
        engine.leader->0.transfer_to is None,
    ensures
        engine.handoff_refusal(engine.begin_result(to)->Ok_0) == Some(
            TransferLeaderError::NotPrepared,
        ),
{
}

/// Every other voter that holds the issuer's vote and membership accepts the
/// request, unless it is the target and is retiring or has not applied the
/// whole prefix.
pub proof fn law_other_voters_accept<C: RaftTypeConfig>(
    issuer: EngineView<C>,
    receiver: EngineView<C>,
    to: C::NodeId,
)
    requires
        issuer.valid(),
        issuer.begin_result(to) is Ok,
        receiver.id() != issuer.id(),
        receiver.vote() == issuer.vote(),
        receiver.state.membership_state == issuer.state.membership_state,
        receiver.is_voter(receiver.id()),
    ensures
        ({
            let request = issuer.begin_result(to)->Ok_0;
            receiver.handoff_refusal(request) == if receiver.id() != to {
                None
            } else if receiver.retiring() {
                Some(TransferLeaderError::Retiring)
            } else if log_before(receiver.state.io_state.applied, request.last_log_id) {
                Some(TransferLeaderError::LogNotApplied)
            } else {
                None
            }
        }),
{
}

/// A voter that is not the target releases the lease of the exact vote that
/// it holds, and nothing else changes.
pub proof fn law_other_voter_releases_only_the_lease<C: RaftTypeConfig>(
    engine: EngineView<C>,
    request: TransferLeaderRequest<C::NodeId>,
    start: CampaignStart,
)
    requires
        engine.handoff_refusal(request) is None,
        request.to != engine.id(),
    ensures
        request.from == engine.vote(),
        engine.after_handoff(request, start) == (EngineView::<C> {
            state: RaftState {
                vote: LeasedVote { lease_disabled: true, ..engine.state.vote },
                ..engine.state
            },
            ..engine
        }),
{
}

/// A request is refused, and changes nothing, unless its vote is committed and
/// is the receiver's own, its membership is the receiver's stable one, and
/// issuer, target and receiver are voters. A target that is retiring, or has
/// not applied the whole prefix, refuses too.
pub proof fn law_only_exact_requests_have_effects<C: RaftTypeConfig>(
    engine: EngineView<C>,
    request: TransferLeaderRequest<C::NodeId>,
    start: CampaignStart,
)
    requires
        engine.after_handoff(request, start) != engine,
    ensures
        request.from.committed,
        request.from == engine.vote(),
        engine.state.membership_state.stable(),
        request.membership_log_id == engine.state.membership_state.committed.log_id,
        engine.is_voter(request.from.leader_id.node_id),
        engine.is_voter(request.to),
        engine.is_voter(engine.id()),
        request.to != request.from.leader_id.node_id,
        request.to == engine.id() ==> !engine.retiring() && !log_before(
            engine.state.io_state.applied,
            request.last_log_id,
        ),
{
}

/// The target campaigns through the ordinary election: it takes its own vote
/// of the next term, persists it before it asks the others for theirs, and has
/// no grant yet. The new vote has the ordinary lease, and accepting the
/// handoff gives no leadership. The same request is stale from then on.
pub proof fn law_target_campaigns_by_the_ordinary_election<C: RaftTypeConfig>(
    engine: EngineView<C>,
    request: TransferLeaderRequest<C::NodeId>,
    start: CampaignStart,
)
    requires
        engine.valid(),
        engine.handoff_refusal(request) is None,
        request.to == engine.id(),
        engine.vote().leader_id.term < u64::MAX,
    ensures
        ({
            let after = engine.after_handoff(request, start);
            let vote = engine.next_vote();
            &&& after.vote() == vote && !vote.committed && engine.vote().before(vote)
            &&& !after.state.vote.lease_disabled
            &&& after.state.server_state is Candidate
            &&& after.candidate matches Some(campaign) && campaign.vote == vote
                && campaign.granted == Set::<C::NodeId>::empty()
            &&& after.leader == engine.leader
            &&& after.commands == engine.commands.push(Command::SaveVote { vote }).push(
                Command::SendVote {
                    vote_req: VoteRequest { vote, last_log_id: engine.state.end_of_log() },
                },
            )
            &&& after.handoff_refusal(request) == Some(TransferLeaderError::VoteChanged)
        }),
{
    let start_state = engine.with_lease_released().with_campaign(start);
    let vote = engine.next_vote();
    assert(engine.vote().before(vote));
    let voted = start_state.with_vote(vote, start.now);
    assert(voted.state.membership_state == engine.state.membership_state);
    assert(voted.state.leading(engine.id()));
    assert(!voted.state.leads(engine.id()));
    assert(start_state.after_vote(vote, start.now) == voted);
    assert(voted.state.role(engine.id()) == ServerState::Candidate);
}

/// A heartbeat under the vote whose lease was released does not restore the
/// lease.
pub proof fn law_late_heartbeat_does_not_restore_the_lease<C: RaftTypeConfig>(
    engine: EngineView<C>,
    now: Instant,
)
    requires
        engine.state.vote.lease_disabled,
    ensures
        engine.after_seen_vote(engine.vote(), now).state.vote.lease_disabled,
        engine.after_seen_vote(engine.vote(), now).vote() == engine.vote(),
{
    lemma_vote_order(engine.vote(), engine.vote(), engine.vote());
}

/// A greater vote has the ordinary lease, whether or not the lease of the vote
/// before it was released.
pub proof fn law_greater_vote_has_the_ordinary_lease<C: RaftTypeConfig>(
    engine: EngineView<C>,
    vote: Vote<C::NodeId>,
    now: Instant,
)
    requires
        engine.vote().before(vote),
    ensures
        engine.after_seen_vote(vote, now).state.vote == LeasedVote::taken(now, vote),
{
    lemma_vote_order(engine.vote(), vote, engine.vote());
}

/// The lease of a committed vote blocks every election while it runs; once it
/// is released, a candidate whose log is not shorter and whose vote is not
/// smaller is granted at once.
pub proof fn law_released_lease_lets_the_successor_win<C: RaftTypeConfig>(
    engine: EngineView<C>,
    req: VoteRequest<C::NodeId>,
    now: Instant,
)
    requires
        engine.vote().committed,
        !log_before(req.last_log_id, engine.state.end_of_log()),
        !req.vote.before(engine.vote()),
    ensures
        engine.state.vote.leased(now, engine.config.timer_config.leader_lease) ==> !engine.grants(
            req,
            now,
        ),
        engine.with_lease_released().grants(req, now),
{
}

/// A refused preparation leaves the engine as it was; one that succeeds
/// retires it, ends its campaign and closes its admission.
pub proof fn law_preparation_retires<C: RaftTypeConfig>(
    engine: EngineView<C>,
    to: Option<C::NodeId>,
)
    ensures
        engine.prepare_result(to) is Err ==> engine.after_prepare(to) == engine,
        engine.prepare_result(to) is Ok && !engine.retiring() ==> ({
            let after = engine.after_prepare(to);
            &&& after.prepared_shutdown == Some(
                PreparedShutdown { handoff: engine.prepare_result(to)->Ok_0 },
            )
            &&& after.candidate is None
            &&& after.admission() is Err
            &&& engine.leader is None ==> engine.prepare_result(to)->Ok_0 is None && after.state
                == engine.state
            &&& engine.leader is Some ==> engine.prepare_result(to)->Ok_0 is Some
        }),
{
}

proof fn lemma_vote_keeps_retirement<C: RaftTypeConfig>(
    engine: EngineView<C>,
    vote: Vote<C::NodeId>,
    now: Instant,
)
    ensures
        engine.after_vote(vote, now).prepared_shutdown == engine.prepared_shutdown,
        engine.after_vote(vote, now).config == engine.config,
        engine.after_seen_vote(vote, now).prepared_shutdown == engine.prepared_shutdown,
        engine.after_seen_vote(vote, now).config == engine.config,
{
    let voted = engine.with_vote(vote, now);
    assert(voted.prepared_shutdown == engine.prepared_shutdown);
    assert(voted.config == engine.config);
}

proof fn lemma_event_keeps_retirement<C: RaftTypeConfig>(
    engine: EngineView<C>,
    event: EngineEvent<C>,
)
    requires
        engine.prepared_shutdown is Some,
    ensures
        engine.after(event).prepared_shutdown == engine.prepared_shutdown,
        engine.after(event).config == engine.config,
{
    match event {
        EngineEvent::SeenVote { vote, now } => {
            lemma_vote_keeps_retirement(engine, vote, now);
        },
        EngineEvent::VoteRequested { req, now } => {
            lemma_vote_keeps_retirement(engine, req.vote, now);
        },
        EngineEvent::VoteAnswered { resp, now, .. } => {
            if let Some(candidate) = engine.candidate {
                let won = EngineView { candidate: None, ..engine };
                let vote = Vote { committed: true, ..candidate.vote };
                lemma_vote_keeps_retirement(engine, resp.vote, now);
                lemma_vote_keeps_retirement(won, vote, now);
            }
        },
        _ => {},
    }
}

/// Retirement is irreversible: whatever happens afterwards, the node stays
/// retired with the same handoff, and does not campaign again.
pub proof fn law_retirement_is_irreversible<C: RaftTypeConfig>(
    engine: EngineView<C>,
    history: Seq<EngineEvent<C>>,
)
    requires
        engine.prepared_shutdown is Some,
    ensures
        engine.after_all(history).prepared_shutdown == engine.prepared_shutdown,
        engine.after_all(history).config == engine.config,
        engine.valid() ==> engine.after_all(history).valid() && engine.after_all(
            history,
        ).candidate is None,
    decreases history.len(),
{
    if history.len() > 0 {
        let earlier = engine.after_all(history.drop_last());
        law_retirement_is_irreversible(engine, history.drop_last());
        lemma_event_keeps_retirement(earlier, history.last());
        if engine.valid() {
            law_every_event_keeps_engines_valid(earlier, history.last());
        }
    }
}

/// A retired node admits nothing, even if a committed vote for itself arrives.
pub proof fn law_retired_node_never_admits<C: RaftTypeConfig>(
    engine: EngineView<C>,
    history: Seq<EngineEvent<C>>,
)
    requires
        engine.prepared_shutdown is Some,
    ensures
        engine.after_all(history).admission() is Err,
{
    law_retirement_is_irreversible(engine, history);
}

/// Preparing again returns the same result, whatever happened in between; a
/// different target cannot replace a prepared handoff. Neither changes the
/// engine.
pub proof fn law_preparation_keeps_its_result<C: RaftTypeConfig>(
    engine: EngineView<C>,
    to: Option<C::NodeId>,
    history: Seq<EngineEvent<C>>,
    again: Option<C::NodeId>,
)
    requires
        engine.prepared_shutdown is None,
        engine.prepare_result(to) is Ok,
    ensures
        ({
            let later = engine.after_prepare(to).after_all(history);
            let handoff = engine.prepare_result(to)->Ok_0;
            &&& later.after_prepare(again) == later
            &&& later.prepare_result(again) == if handoff is Some && again is Some && again
                != Some(handoff->0.to) {
                Err(TransferLeaderError::TransferInProgress)
            } else {
                Ok(handoff)
            }
        }),
{
    law_retirement_is_irreversible(engine.after_prepare(to), history);
}

/// Neither an election trigger nor a delayed grant makes a retired node
/// campaign or lead: both change nothing.
pub proof fn law_retired_node_ignores_elections<C: RaftTypeConfig>(
    engine: EngineView<C>,
    history: Seq<EngineEvent<C>>,
    start: CampaignStart,
    target: C::NodeId,
    resp: VoteResponse<C::NodeId>,
    now: Instant,
)
    requires
        engine.prepared_shutdown is Some,
    ensures
        ({
            let later = engine.after_all(history);
            &&& later.after_elect(start) == later
            &&& engine.valid() ==> later.after_vote_resp(target, resp, now) == later
        }),
{
    law_retirement_is_irreversible(engine, history);
}

/// A retired node cannot be the target of a handoff: it refuses and changes
/// nothing.
pub proof fn law_retired_node_is_no_target<C: RaftTypeConfig>(
    engine: EngineView<C>,
    history: Seq<EngineEvent<C>>,
    request: TransferLeaderRequest<C::NodeId>,
    start: CampaignStart,
)
    requires
        engine.prepared_shutdown is Some,
        request.to == engine.id(),
    ensures
        ({
            let later = engine.after_all(history);
            &&& later.handoff_refusal(request) is Some
            &&& later.after_handoff(request, start) == later
        }),
{
    law_retirement_is_irreversible(engine, history);
}

/// A node that retired without a handoff cannot begin one later.
pub proof fn law_retired_follower_begins_no_handoff<C: RaftTypeConfig>(
    engine: EngineView<C>,
    history: Seq<EngineEvent<C>>,
    to: C::NodeId,
)
    requires
        engine.prepared_shutdown is Some && engine.prepared_shutdown->0.handoff is None,
    ensures
        engine.after_all(history).begin_result(to) == Err::<TransferLeaderRequest<C::NodeId>, _>(
            TransferLeaderError::Retiring,
        ),
{
    law_retirement_is_irreversible(engine, history);
}

/// Retirement makes no difference to how a node that does not lead votes: it
/// grants the same requests, takes the same votes and persists them.
pub proof fn law_retirement_preserves_voting<C: RaftTypeConfig>(
    engine: EngineView<C>,
    to: Option<C::NodeId>,
    req: VoteRequest<C::NodeId>,
    now: Instant,
)
    requires
        engine.leader is None,
        engine.prepared_shutdown is None,
    ensures
        ({
            let retired = engine.after_prepare(to);
            &&& retired.grants(req, now) == engine.grants(req, now)
            &&& retired.after_vote_req(req, now).state == engine.after_vote_req(req, now).state
            &&& retired.after_vote_req(req, now).commands == engine.after_vote_req(
                req,
                now,
            ).commands
        }),
{
}

/// A leader that retired votes for others too. Its own lease is released, so
/// it grants at once every candidate whose log is not shorter and whose vote
/// is not smaller, and takes that vote.
pub proof fn law_retired_leader_votes_for_others<C: RaftTypeConfig>(
    engine: EngineView<C>,
    to: C::NodeId,
    req: VoteRequest<C::NodeId>,
    now: Instant,
)
    requires
        engine.leader is Some,
        engine.prepared_shutdown is None,
        engine.prepare_result(Some(to)) is Ok,
    ensures
        ({
            let retired = engine.after_prepare(Some(to));
            &&& retired.grants(req, now) == (!log_before(
                req.last_log_id,
                engine.state.end_of_log(),
            ) && !req.vote.before(engine.vote()))
            &&& retired.grants(req, now) ==> retired.after_vote_req(req, now).vote() == req.vote
        }),
{
    lemma_vote_order(engine.vote(), req.vote, engine.vote());
}

/// A target that has not applied the whole prefix refuses without any effect.
/// Once it has caught up, the same request is accepted.
pub proof fn law_lagging_target_accepts_once_it_has_caught_up<C: RaftTypeConfig>(
    engine: EngineView<C>,
    request: TransferLeaderRequest<C::NodeId>,
    start: CampaignStart,
    applied: Option<LogId<C::NodeId>>,
)
    requires
        engine.handoff_refusal(request) == Some(TransferLeaderError::LogNotApplied),
        !log_before(applied, request.last_log_id),
    ensures
        engine.after_handoff(request, start) == engine,
        (EngineView::<C> {
            state: RaftState { io_state: IOState { applied }, ..engine.state },
            ..engine
        }).handoff_refusal(request) is None,
{
}

impl<C: RaftTypeConfig> EngineView<C> {
    /// Whether the event makes the node campaign.
    pub open spec fn campaigns_on(self, event: EngineEvent<C>) -> bool {
        match event {
            EngineEvent::Elect { .. } => !self.retiring(),
            EngineEvent::Handoff { request, .. } => self.handoff_refusal(request) is None
                && request.to == self.id(),
            _ => false,
        }
    }
}

proof fn lemma_campaign_sets_the_config<C: RaftTypeConfig>(
    engine: EngineView<C>,
    start: CampaignStart,
)
    ensures
        engine.after_elect(start).config == if engine.retiring() {
            engine.config
        } else {
            engine.with_campaign(start).config
        },
{
    if !engine.retiring() {
        lemma_vote_keeps_retirement(engine.with_campaign(start), engine.next_vote(), start.now);
    }
}

/// Every campaign draws its election timeout anew, from its own sample, and
/// nothing else does; the lease, the other timers and the range from which
/// timeouts are drawn never change.
pub proof fn law_campaigns_alone_draw_the_timeout<C: RaftTypeConfig>(
    engine: EngineView<C>,
    event: EngineEvent<C>,
)
    ensures
        !engine.campaigns_on(event) ==> engine.after(event).config == engine.config,
        engine.campaigns_on(event) ==> engine.after(event).config == (EngineConfig {
            timer_config: TimerConfig {
                election_timeout: timeout_of(
                    engine.config.election_timeout_min,
                    engine.config.election_timeout_max,
                    match event {
                        EngineEvent::Elect { start } => start.sample,
                        EngineEvent::Handoff { start, .. } => start.sample,
                        _ => 0,
                    },
                ) as u64,
                ..engine.config.timer_config
            },
            ..engine.config
        }),
{
    match event {
        EngineEvent::Elect { start } => {
            lemma_campaign_sets_the_config(engine, start);
        },
        EngineEvent::SeenVote { vote, now } => {
            lemma_vote_keeps_retirement(engine, vote, now);
        },
        EngineEvent::VoteRequested { req, now } => {
            lemma_vote_keeps_retirement(engine, req.vote, now);
        },
        EngineEvent::VoteAnswered { resp, now, .. } => {
            if let Some(candidate) = engine.candidate {
                let won = EngineView { candidate: None, ..engine };
                let vote = Vote { committed: true, ..candidate.vote };
                lemma_vote_keeps_retirement(engine, resp.vote, now);
                lemma_vote_keeps_retirement(won, vote, now);
            }
        },
        EngineEvent::Handoff { start, .. } => {
            lemma_campaign_sets_the_config(engine.with_lease_released(), start);
        },
        _ => {},
    }
}

/// Whatever happens, and whatever is sampled, the election timeout stays in
/// the range from which it is drawn.
pub proof fn law_timeout_stays_in_range<C: RaftTypeConfig>(
    engine: EngineView<C>,
    history: Seq<EngineEvent<C>>,
)
    requires
        engine.config.in_range(),
    ensures
        engine.after_all(history).config.in_range(),
        engine.after_all(history).config.election_timeout_min
            == engine.config.election_timeout_min,
        engine.after_all(history).config.election_timeout_max
            == engine.config.election_timeout_max,
    decreases history.len(),
{
    if history.len() > 0 {
        let earlier = engine.after_all(history.drop_last());
        law_timeout_stays_in_range(engine, history.drop_last());
        law_campaigns_alone_draw_the_timeout(earlier, history.last());
        match history.last() {
            EngineEvent::Elect { start } => {
                law_drawn_timeout_is_in_range(
                    engine.config.election_timeout_min,
                    engine.config.election_timeout_max,
                    start.sample,
                );
            },
            EngineEvent::Handoff { start, .. } => {
                law_drawn_timeout_is_in_range(
                    engine.config.election_timeout_min,
                    engine.config.election_timeout_max,
                    start.sample,
                );
            },
            _ => {},
        }
    }
}

/// No event makes a node hold a smaller vote than before, as long as the term
/// of its next campaign can be counted.
pub proof fn law_votes_never_decrease<C: RaftTypeConfig>(
    engine: EngineView<C>,
    event: EngineEvent<C>,
)
    requires
        engine.campaigns_on(event) ==> engine.vote().leader_id.term < u64::MAX,
    ensures
        !engine.after(event).vote().before(engine.vote()),
{
    let old_vote = engine.vote();
    let new_vote = engine.after(event).vote();
    lemma_vote_order(old_vote, new_vote, old_vote);
}

/// Beginning a handoff succeeds for every leader that leads under exactly its
/// committed vote, in a committed membership with one voter list that names it
/// and another node `to`, unless it retired without a handoff or already hands
/// over to a third node. What is committed, replicated or applied makes no
/// difference: entries that are still under way are in the request. Only the
/// handoff and the released lease change.
pub proof fn law_begin_succeeds_whatever_is_under_way<C: RaftTypeConfig>(
    engine: EngineView<C>,
    to: C::NodeId,
)
    requires
        engine.prepared_shutdown is None || engine.prepared_shutdown->0.handoff is Some,
        engine.leader is Some,
        engine.leader->0.vote == engine.state.vote.vote,
        engine.state.vote.vote.committed,
        engine.state.membership_state.effective.membership.configs@.len() == 1,
        engine.state.membership_state.effective.log_id
            == engine.state.membership_state.committed.log_id,
        engine.state.membership_state.effective.membership.voter(engine.config.id),
        engine.state.membership_state.effective.membership.voter(to),
        to != engine.config.id,
        engine.leader->0.transfer_to is None || engine.leader->0.transfer_to == Some(to),
    ensures
        engine.begin_result(to) matches Ok(request) && request.from == engine.state.vote.vote
            && request.to == to && request.last_log_id == engine.leader->0.last_log_id
            && request.membership_log_id == engine.state.membership_state.effective.log_id,
        ({
            let after = engine.after_begin(to);
            &&& after.leader matches Some(leader) && leader.transfer_to == Some(to) && leader.vote
                == engine.leader->0.vote && leader.last_log_id == engine.leader->0.last_log_id
            &&& after.state.vote.lease_disabled
            &&& after == (EngineView::<C> {
                leader: after.leader,
                state: RaftState {
                    vote: LeasedVote { lease_disabled: true, ..engine.state.vote },
                    ..engine.state
                },
                ..engine
            })
        }),
{
}

/// Beginning a handoff is refused for the first of these reasons that holds, and
/// then changes nothing: the node retired without a handoff; it does not lead
/// under exactly its committed vote; its membership is joint or uncommitted; the
/// target is itself or no voter, or it is no voter itself; it already hands over
/// to another node.
pub proof fn law_begin_is_refused_for_the_first_reason<C: RaftTypeConfig>(
    engine: EngineView<C>,
    to: C::NodeId,
)
    ensures
        ({
            let retired = engine.prepared_shutdown is Some
                && engine.prepared_shutdown->0.handoff is None;
            let leads = engine.leader is Some && engine.leader->0.vote == engine.state.vote.vote
                && engine.state.vote.vote.committed;
            let memberships = engine.state.membership_state;
            let steady = memberships.effective.membership.configs@.len() == 1
                && memberships.effective.log_id == memberships.committed.log_id;
            let eligible = to != engine.config.id && memberships.effective.membership.voter(to)
                && memberships.effective.membership.voter(engine.config.id);
            let result = engine.begin_result(to);
            &&& retired ==> result == Err::<TransferLeaderRequest<C::NodeId>, _>(
                TransferLeaderError::Retiring,
            )
            &&& !retired && !leads ==> result == Err::<TransferLeaderRequest<C::NodeId>, _>(
                TransferLeaderError::NotLeader,
            )
            &&& !retired && leads && !steady ==> result == Err::<
                TransferLeaderRequest<C::NodeId>,
                _,
            >(TransferLeaderError::MembershipChanged)
            &&& !retired && leads && steady && !eligible ==> result == Err::<
                TransferLeaderRequest<C::NodeId>,
                _,
            >(TransferLeaderError::InvalidTarget)
            &&& !retired && leads && steady && eligible && engine.leader->0.transfer_to is Some
                && engine.leader->0.transfer_to != Some(to) ==> result == Err::<
                TransferLeaderRequest<C::NodeId>,
                _,
            >(TransferLeaderError::TransferInProgress)
            &&& result is Err ==> engine.after_begin(to) == engine
        }),
{
}

/// A node that does not lead retires whenever it is asked to, whichever
/// successor is named and whether or not it campaigns. There is nothing to
/// deliver, its campaign is over, and nothing else changes.
pub proof fn law_node_that_does_not_lead_retires_without_a_handoff<C: RaftTypeConfig>(
    engine: EngineView<C>,
    to: Option<C::NodeId>,
)
    requires
        engine.leader is None,
        engine.prepared_shutdown is None,
    ensures
        engine.prepare_result(to) == Ok::<
            Option<TransferLeaderRequest<C::NodeId>>,
            TransferLeaderError,
        >(None),
        engine.after_prepare(to).prepared_shutdown matches Some(prepared) && prepared.handoff is None,
        engine.after_prepare(to).candidate is None,
        engine.after_prepare(to) == (EngineView::<C> {
            candidate: None,
            prepared_shutdown: engine.after_prepare(to).prepared_shutdown,
            ..engine
        }),
{
}

/// A leader retires by beginning the handoff to the successor that is named: it
/// gets the request that beginning alone would have given, keeps it, and is
/// otherwise as after beginning alone, without a campaign. Without a successor,
/// or where beginning is refused, it is refused and changes nothing.
pub proof fn law_leader_retires_by_beginning_its_handoff<C: RaftTypeConfig>(
    engine: EngineView<C>,
    to: C::NodeId,
)
    requires
        engine.leader is Some,
        engine.prepared_shutdown is None,
    ensures
        engine.prepare_result(None) == Err::<Option<TransferLeaderRequest<C::NodeId>>, _>(
            TransferLeaderError::InvalidTarget,
        ),
        engine.after_prepare(None) == engine,
        match engine.begin_result(to) {
            Ok(request) => {
                &&& engine.prepare_result(Some(to)) == Ok::<
                    Option<TransferLeaderRequest<C::NodeId>>,
                    TransferLeaderError,
                >(Some(request))
                &&& engine.after_prepare(Some(to)) == (EngineView::<C> {
                    candidate: None,
                    prepared_shutdown: Some(PreparedShutdown { handoff: Some(request) }),
                    ..engine.after_begin(to)
                })
            },
            Err(error) => {
                &&& engine.prepare_result(Some(to)) == Err::<
                    Option<TransferLeaderRequest<C::NodeId>>,
                    _,
                >(error)
                &&& engine.after_prepare(Some(to)) == engine
            },
        },
{
}

/// A node that has retired returns what it returned when it retired, and changes
/// nothing; only a successor other than the one it hands over to is refused.
pub proof fn law_retired_node_returns_what_it_kept<C: RaftTypeConfig>(
    engine: EngineView<C>,
    to: Option<C::NodeId>,
)
    requires
        engine.prepared_shutdown is Some,
    ensures
        engine.after_prepare(to) == engine,
        match (engine.prepared_shutdown->0.handoff, to) {
            (Some(request), Some(successor)) => if request.to == successor {
                engine.prepare_result(to) == Ok::<_, TransferLeaderError>(Some(request))
            } else {
                engine.prepare_result(to) == Err::<Option<TransferLeaderRequest<C::NodeId>>, _>(
                    TransferLeaderError::TransferInProgress,
                )
            },
            (handoff, _) => engine.prepare_result(to) == Ok::<_, TransferLeaderError>(handoff),
        },
{
}

/// A request is accepted by every voter that holds its committed vote and its
/// membership, which is committed and has one voter list that names issuer and
/// target, two nodes. The issuer has to have stopped admission for this very
/// handoff, and the target has to have applied the whole prefix and not be
/// retiring; nothing more is asked of anybody.
pub proof fn law_exact_request_is_accepted<C: RaftTypeConfig>(
    engine: EngineView<C>,
    request: TransferLeaderRequest<C::NodeId>,
    start: CampaignStart,
)
    requires
        request.from.committed,
        request.from == engine.state.vote.vote,
        engine.state.membership_state.effective.membership.configs@.len() == 1,
        engine.state.membership_state.effective.log_id
            == engine.state.membership_state.committed.log_id,
        engine.state.membership_state.effective.log_id == request.membership_log_id,
        engine.state.membership_state.effective.membership.voter(request.from.leader_id.node_id),
        engine.state.membership_state.effective.membership.voter(request.to),
        engine.state.membership_state.effective.membership.voter(engine.config.id),
        request.to != request.from.leader_id.node_id,
        request.from.leader_id.node_id == engine.config.id ==> engine.leader is Some
            && engine.leader->0.vote == request.from && engine.leader->0.transfer_to == Some(
            request.to,
        ),
        request.to == engine.config.id ==> engine.prepared_shutdown is None && !log_before(
            engine.state.io_state.applied,
            request.last_log_id,
        ),
    ensures
        engine.handoff_refusal(request) is None,
        request.to != engine.config.id ==> engine.after_handoff(request, start) == (EngineView::<
            C,
        > {
            state: RaftState {
                vote: LeasedVote { lease_disabled: true, ..engine.state.vote },
                ..engine.state
            },
            ..engine
        }),
        request.to == engine.config.id ==> engine.after_handoff(request, start) == (EngineView::<
            C,
        > {
            state: RaftState {
                vote: LeasedVote { lease_disabled: true, ..engine.state.vote },
                ..engine.state
            },
            ..engine
        }).after_elect(start),
{
}

/// A request is refused for the first of these reasons that holds, and then
/// changes nothing: its vote is not committed, or not the receiver's; its
/// membership is not the receiver's, joint or uncommitted, or does not name
/// issuer and receiver; its target is no voter or the issuer; the issuer has not
/// stopped admission for it; the target is retiring; the target has not applied
/// the whole prefix.
pub proof fn law_request_is_refused_for_the_first_reason<C: RaftTypeConfig>(
    engine: EngineView<C>,
    request: TransferLeaderRequest<C::NodeId>,
    start: CampaignStart,
)
    ensures
        ({
            let issuer = request.from.leader_id.node_id;
            let memberships = engine.state.membership_state;
            let membership = memberships.effective.membership;
            let current = request.from.committed && request.from == engine.state.vote.vote;
            let exact = membership.configs@.len() == 1 && memberships.effective.log_id
                == memberships.committed.log_id && memberships.effective.log_id
                == request.membership_log_id && membership.voter(issuer) && membership.voter(
                engine.config.id,
            );
            let eligible = membership.voter(request.to) && request.to != issuer;
            let prepared = issuer != engine.config.id || (engine.leader is Some
                && engine.leader->0.vote == request.from && engine.leader->0.transfer_to == Some(
                request.to,
            ));
            let target = request.to == engine.config.id;
            let refusal = engine.handoff_refusal(request);
            &&& !current ==> refusal == Some(TransferLeaderError::VoteChanged)
            &&& current && !exact ==> refusal == Some(TransferLeaderError::MembershipChanged)
            &&& current && exact && !eligible ==> refusal == Some(
                TransferLeaderError::InvalidTarget,
            )
            &&& current && exact && eligible && !prepared ==> refusal == Some(
                TransferLeaderError::NotPrepared,
            )
            &&& current && exact && eligible && prepared && target
                && engine.prepared_shutdown is Some ==> refusal == Some(
                TransferLeaderError::Retiring,
            )
            &&& current && exact && eligible && prepared && target
                && engine.prepared_shutdown is None && log_before(
                engine.state.io_state.applied,
                request.last_log_id,
            ) ==> refusal == Some(TransferLeaderError::LogNotApplied)
            &&& refusal is Some ==> engine.after_handoff(request, start) == engine
        }),
{
}

} // verus!
