//! The consensus engine of one node, as far as elections and retirement go:
//! votes, leases, campaigns and leadership.

use crate::command::Command;
use crate::config::Config;
use crate::engine_output::EngineOutput;
use crate::leadership::{is_quorum, Candidate, CandidateView, Leader};
use crate::leadership_transfer::PreparedShutdown;
use crate::log_id::{copied, log_before, log_precedes};
use crate::membership::config_views;
use crate::raft_state::{Instant, LeasedVote, RaftState, ServerState};
use crate::type_config::{NodeId, RaftTypeConfig};
use crate::vote::{LeaderId, Vote};
use crate::vote_message::{VoteRequest, VoteResponse};
use vstd::prelude::*;

verus! {

/// The timers of one node, in milliseconds.
#[derive(Clone, Copy, Debug, PartialEq, Eq, Structural)]
pub struct TimerConfig {
    /// How long to wait for a leader before campaigning.
    pub election_timeout: u64,
    /// How much longer to wait after having seen a longer log.
    pub smaller_log_timeout: u64,
    /// How long a committed vote blocks the election of another leader.
    pub leader_lease: u64,
}

/// The election timeout that a sample gives: the sample's share of all samples
/// is the timeout's share of the range, from `min` up to, and without, `max`.
pub open spec fn timeout_of(min: u64, max: u64, sample: u64) -> int {
    min + (sample * (max - min)) / 0x1_0000_0000_0000_0000
}

/// Whatever the sample is, the election timeout lies in the range.
pub proof fn law_drawn_timeout_is_in_range(min: u64, max: u64, sample: u64)
    requires
        min < max,
    ensures
        min <= timeout_of(min, max, sample) < max,
{
    let span = max - min;
    let product = sample * span;
    assert(0 <= product < 0x1_0000_0000_0000_0000 * span) by (nonlinear_arith)
        requires
            0 < span,
            0 <= sample < 0x1_0000_0000_0000_0000,
            product == sample * span,
    ;
}

/// Every election timeout of the range comes of some sample.
pub proof fn law_every_timeout_can_be_drawn(min: u64, max: u64, timeout: u64)
    requires
        min <= timeout < max,
    ensures
        exists|sample: u64| #[trigger] timeout_of(min, max, sample) == timeout,
{
    let all: int = 0x1_0000_0000_0000_0000;
    let span = max - min;
    let share = timeout - min;
    // The least sample whose share of the range is not smaller.
    let least = (share * all + span - 1) / span;
    assert(share * all <= least * span < share * all + span && 0 <= least < all) by (nonlinear_arith)
        requires
            0 <= share < span < all,
            all > 0,
            least == (share * all + span - 1) / span,
    {
        let n = share * all + span - 1;
        vstd::arithmetic::div_mod::lemma_fundamental_div_mod(n, span);
        vstd::arithmetic::div_mod::lemma_mod_bound(n, span);
        assert(n == span * (n / span) + n % span);
        assert(share * all <= (span - 1) * all);
        assert(n < span * all);
    }
    assert(least * span < (share + 1) * all) by (nonlinear_arith)
        requires
            least * span < share * all + span,
            span < all,
    ;
    assert((least * span) / all == share) by (nonlinear_arith)
        requires
            share * all <= least * span < (share + 1) * all,
            all > 0,
    ;
    let sample = least as u64;
    assert(timeout_of(min, max, sample) == timeout);
}

/// The least sample gives the shortest timeout, and a greater sample never gives
/// a shorter one.
pub proof fn law_greater_samples_give_no_shorter_timeouts(
    min: u64,
    max: u64,
    sample: u64,
    greater: u64,
)
    requires
        min < max,
        sample <= greater,
    ensures
        timeout_of(min, max, 0) == min,
        timeout_of(min, max, sample) <= timeout_of(min, max, greater),
{
    assert(sample * (max - min) <= greater * (max - min)) by (nonlinear_arith)
        requires
            sample <= greater,
            min < max,
    ;
    assert(0 * (max - min) == 0) by (nonlinear_arith);
}

/// The election timeout that a sample gives.
fn drawn(min: u64, max: u64, sample: u64) -> (r: u64)
    requires
        min < max,
    ensures
        r == timeout_of(min, max, sample),
        min <= r < max,
{
    proof {
        law_drawn_timeout_is_in_range(min, max, sample);
        assert(sample * (max - min) <= u128::MAX) by (nonlinear_arith)
            requires
                min < max,
        ;
    }
    let product: u128 = sample as u128 * (max - min) as u128;
    min + (product / 0x1_0000_0000_0000_0000u128) as u64
}

/// What is fixed for an engine, but for the election timeout, which is drawn
/// anew for each campaign.
#[derive(Clone, Debug, PartialEq, Eq)]
pub struct EngineConfig<NID: NodeId> {
    pub id: NID,
    pub election_timeout_min: u64,
    pub election_timeout_max: u64,
    pub timer_config: TimerConfig,
}

impl<NID: NodeId> EngineConfig<NID> {
    /// The election timeout lies in the range from which it is drawn.
    pub open spec fn in_range(self) -> bool {
        self.election_timeout_min <= self.timer_config.election_timeout < self.election_timeout_max
    }

    /// The configuration of node `id`, with a first draw of the election
    /// timeout, from a random `sample`.
    pub fn new(id: NID, config: &Config, sample: u64) -> (r: Self)
        requires
            config.election_timeout_min < config.election_timeout_max,
            2 * config.election_timeout_max <= u64::MAX,
        ensures
            r.in_range(),
            r == (EngineConfig {
                id,
                election_timeout_min: config.election_timeout_min,
                election_timeout_max: config.election_timeout_max,
                timer_config: TimerConfig {
                    election_timeout: timeout_of(
                        config.election_timeout_min,
                        config.election_timeout_max,
                        sample,
                    ) as u64,
                    smaller_log_timeout: (2 * config.election_timeout_max) as u64,
                    leader_lease: config.election_timeout_max,
                },
            }),
    {
        EngineConfig {
            id,
            election_timeout_min: config.election_timeout_min,
            election_timeout_max: config.election_timeout_max,
            timer_config: TimerConfig {
                election_timeout: drawn(
                    config.election_timeout_min,
                    config.election_timeout_max,
                    sample,
                ),
                smaller_log_timeout: 2 * config.election_timeout_max,
                leader_lease: config.election_timeout_max,
            },
        }
    }
}

impl Default for EngineConfig<u64> {
    /// Node 0 with the default settings, and the shortest election timeout.
    fn default() -> (r: Self)
        ensures
            r == (EngineConfig {
                id: 0u64,
                election_timeout_min: 150,
                election_timeout_max: 300,
                timer_config: TimerConfig {
                    election_timeout: 150,
                    smaller_log_timeout: 600,
                    leader_lease: 300,
                },
            }),
    {
        EngineConfig::new(0, &Config::default(), 0)
    }
}

/// What the runtime supplies for a campaign: the time, and a fresh random
/// number, from which the election timeout is drawn.
#[derive(Clone, Copy, Debug, PartialEq, Eq, Structural)]
pub struct CampaignStart {
    pub now: Instant,
    pub sample: u64,
}

/// A request reached a node that does not admit it; `leader_id` is the node to
/// try instead, if one is known.
#[derive(Clone, Debug, PartialEq, Eq)]
pub struct ForwardToLeader<NID: NodeId> {
    pub leader_id: Option<NID>,
}

/// The engine of one node.
pub struct Engine<C: RaftTypeConfig> {
    pub config: EngineConfig<C::NodeId>,
    pub state: RaftState<C::NodeId>,
    /// The leadership of this node, if it leads.
    pub leader: Option<Leader<C::NodeId>>,
    /// The campaign of this node, if it campaigns.
    pub candidate: Option<Candidate<C::NodeId>>,
    /// Set once this node has prepared for its shutdown, and never reset.
    pub prepared_shutdown: Option<PreparedShutdown<C::NodeId>>,
    pub output: EngineOutput<C>,
}

/// The engine as mathematical values.
#[verifier::ext_equal]
#[verifier::reject_recursive_types(C)]
pub struct EngineView<C: RaftTypeConfig> {
    pub config: EngineConfig<C::NodeId>,
    pub state: RaftState<C::NodeId>,
    pub leader: Option<Leader<C::NodeId>>,
    pub candidate: Option<CandidateView<C::NodeId>>,
    pub prepared_shutdown: Option<PreparedShutdown<C::NodeId>>,
    pub seq: u64,
    pub commands: Seq<Command<C>>,
}

impl<C: RaftTypeConfig> View for Engine<C> {
    type V = EngineView<C>;

    open spec fn view(&self) -> EngineView<C> {
        EngineView {
            config: self.config,
            state: self.state,
            leader: self.leader,
            candidate: match self.candidate {
                Some(candidate) => Some(candidate@),
                None => None,
            },
            prepared_shutdown: self.prepared_shutdown,
            seq: self.output.seq,
            commands: self.output.commands@,
        }
    }
}

impl<C: RaftTypeConfig> EngineView<C> {
    pub open spec fn id(self) -> C::NodeId {
        self.config.id
    }

    /// The vote that the node holds.
    pub open spec fn vote(self) -> Vote<C::NodeId> {
        self.state.vote.vote
    }

    /// The node has prepared for its shutdown.
    pub open spec fn retiring(self) -> bool {
        self.prepared_shutdown is Some
    }

    pub open spec fn pushed(self, cmd: Command<C>) -> Self {
        EngineView { commands: self.commands.push(cmd), ..self }
    }

    /// The engine after its role was adjusted to its vote and membership; the
    /// runtime is told when leadership begins or ends.
    pub open spec fn with_role(self) -> Self {
        let role = self.state.role(self.id());
        let told = if role == self.state.server_state {
            self
        } else if role is Leader {
            self.pushed(Command::BecomeLeader)
        } else if self.state.server_state is Leader {
            self.pushed(Command::QuitLeader)
        } else {
            self
        };
        EngineView { state: RaftState { server_state: role, ..self.state }, ..told }
    }

    /// The leadership under the vote that the node holds: the one it already
    /// has, if it is of the same term and node, or else a new one.
    pub open spec fn leadership(self) -> Leader<C::NodeId> {
        match self.leader {
            Some(leader) => if leader.vote.leader_id == self.vote().leader_id {
                Leader { vote: self.vote(), ..leader }
            } else {
                self.new_leadership()
            },
            None => self.new_leadership(),
        }
    }

    pub open spec fn new_leadership(self) -> Leader<C::NodeId> {
        Leader { vote: self.vote(), transfer_to: None, last_log_id: self.state.end_of_log() }
    }

    /// The engine with a vote taken or confirmed at `now`. A greater vote is
    /// persisted and gets the ordinary lease; the same vote is only confirmed.
    pub open spec fn with_vote(self, vote: Vote<C::NodeId>, now: Instant) -> Self {
        if self.vote().before(vote) {
            EngineView {
                state: RaftState { vote: LeasedVote::taken(now, vote), ..self.state },
                ..self
            }.pushed(Command::SaveVote { vote })
        } else {
            EngineView {
                state: RaftState {
                    vote: LeasedVote { last_update: Some(now), ..self.state.vote },
                    ..self.state
                },
                ..self
            }
        }
    }

    /// The engine after its leadership and campaign were adjusted to its vote:
    /// it leads under its own committed vote, may campaign under its own vote,
    /// and follows under any other vote.
    pub open spec fn settled(self) -> Self {
        if self.state.leads(self.id()) {
            EngineView { leader: Some(self.leadership()), candidate: None, ..self }.with_role()
        } else if self.state.leading(self.id()) {
            self
        } else {
            EngineView { leader: None, candidate: None, ..self }.with_role()
        }
    }

    /// The engine after it saw a vote that is not smaller than its own.
    pub open spec fn after_vote(self, vote: Vote<C::NodeId>, now: Instant) -> Self {
        self.with_vote(vote, now).settled()
    }

    /// The term after the present one can be counted, and there is an election
    /// timeout to draw.
    pub open spec fn can_campaign(self) -> bool {
        &&& self.vote().leader_id.term < u64::MAX
        &&& self.config.election_timeout_min < self.config.election_timeout_max
    }

    /// The vote with which the node campaigns next.
    pub open spec fn next_vote(self) -> Vote<C::NodeId> {
        Vote {
            leader_id: LeaderId {
                term: (self.vote().leader_id.term + 1) as u64,
                node_id: self.id(),
            },
            committed: false,
        }
    }

    /// The engine with a campaign that nobody has granted yet.
    pub open spec fn with_campaign(self, start: CampaignStart) -> Self {
        EngineView {
            config: EngineConfig {
                timer_config: TimerConfig {
                    election_timeout: timeout_of(
                        self.config.election_timeout_min,
                        self.config.election_timeout_max,
                        start.sample,
                    ) as u64,
                    ..self.config.timer_config
                },
                ..self.config
            },
            candidate: Some(
                CandidateView {
                    vote: self.next_vote(),
                    last_log_id: self.state.end_of_log(),
                    quorum_set: config_views(
                        self.state.membership_state.effective.membership.configs@,
                    ),
                    granted: Set::empty(),
                },
            ),
            ..self
        }
    }

    /// The engine after it was asked to campaign. A retiring node does not.
    pub open spec fn after_elect(self, start: CampaignStart) -> Self {
        if self.retiring() {
            self
        } else {
            let vote = self.next_vote();
            self.with_campaign(start).after_vote(vote, start.now).pushed(
                Command::SendVote {
                    vote_req: VoteRequest { vote, last_log_id: self.state.end_of_log() },
                },
            ).with_role()
        }
    }

    /// Whether the node grants a vote request: no lease of another leader
    /// runs, the candidate's log is not shorter, and its vote is not smaller.
    pub open spec fn grants(self, req: VoteRequest<C::NodeId>, now: Instant) -> bool {
        &&& !(self.vote().committed && self.state.vote.leased(
            now,
            self.config.timer_config.leader_lease,
        ))
        &&& !log_before(req.last_log_id, self.state.end_of_log())
        &&& !req.vote.before(self.vote())
    }

    /// The engine after a vote request.
    pub open spec fn after_vote_req(self, req: VoteRequest<C::NodeId>, now: Instant) -> Self {
        if self.grants(req, now) {
            self.after_vote(req.vote, now)
        } else {
            self
        }
    }

    /// The engine after a quorum granted its campaign: the vote is committed,
    /// unless the node holds a greater one by now.
    pub open spec fn after_win(self, vote: Vote<C::NodeId>, now: Instant) -> Self {
        EngineView { candidate: None, ..self }.after_seen_vote(Vote { committed: true, ..vote }, now)
    }

    /// The engine after it saw some vote; a smaller one changes nothing.
    pub open spec fn after_seen_vote(self, vote: Vote<C::NodeId>, now: Instant) -> Self {
        if vote.before(self.vote()) {
            self
        } else {
            self.after_vote(vote, now)
        }
    }

    /// The engine after an answer to its vote request. Without a campaign the
    /// answer is ignored.
    pub open spec fn after_vote_resp(
        self,
        target: C::NodeId,
        resp: VoteResponse<C::NodeId>,
        now: Instant,
    ) -> Self {
        match self.candidate {
            None => self,
            Some(candidate) => if resp.vote_granted && resp.vote == candidate.vote {
                let granted = CandidateView {
                    granted: candidate.granted.insert(target),
                    ..candidate
                };
                if is_quorum(granted.quorum_set, granted.granted) {
                    self.after_win(candidate.vote, now)
                } else {
                    EngineView { candidate: Some(granted), ..self }
                }
            } else {
                self.after_seen_vote(resp.vote, now)
            },
        }
    }

    /// What a request for the leader is answered: admitted, or the node to try
    /// instead.
    pub open spec fn admission(self) -> Result<(), ForwardToLeader<C::NodeId>> {
        match self.leader {
            None => Err(ForwardToLeader { leader_id: self.state.known_leader() }),
            Some(leader) => if leader.transfer_to is Some || self.retiring() {
                Err(ForwardToLeader { leader_id: leader.transfer_to })
            } else {
                Ok(())
            },
        }
    }
}

impl<C: RaftTypeConfig> Engine<C> {
    /// An engine that neither leads nor campaigns.
    pub fn new(state: RaftState<C::NodeId>, config: EngineConfig<C::NodeId>) -> (r: Self)
        ensures
            r@ == (EngineView::<C> {
                config,
                state,
                leader: None,
                candidate: None,
                prepared_shutdown: None,
                seq: 0,
                commands: Seq::empty(),
            }),
    {
        Engine {
            config,
            state,
            leader: None,
            candidate: None,
            prepared_shutdown: None,
            output: EngineOutput::new(0),
        }
    }

    pub fn candidate_ref(&self) -> (r: Option<&Candidate<C::NodeId>>)
        ensures
            match r {
                Some(candidate) => self@.candidate == Some(candidate@),
                None => self@.candidate is None,
            },
    {
        self.candidate.as_ref()
    }

    /// The leadership under which a proposal, a read or a heartbeat is
    /// admitted.
    pub fn leader_handler(&self) -> (r: Result<&Leader<C::NodeId>, ForwardToLeader<C::NodeId>>)
        ensures
            match r {
                Ok(leader) => self@.admission() is Ok && self.leader == Some(*leader),
                Err(forward) => self@.admission() == Err::<(), ForwardToLeader<C::NodeId>>(forward),
            },
    {
        match &self.leader {
            None => Err(ForwardToLeader { leader_id: self.state.forward_to_leader() }),
            Some(leader) => match &leader.transfer_to {
                Some(to) => Err(ForwardToLeader { leader_id: Some(to.dup()) }),
                None => if self.prepared_shutdown.is_some() {
                    Err(ForwardToLeader { leader_id: None })
                } else {
                    Ok(leader)
                },
            },
        }
    }

    /// Adjust the role to the vote and the membership.
    fn update_server_state_if_changed(&mut self)
        ensures
            final(self)@ == old(self)@.with_role(),
            final(self).candidate == old(self).candidate,
    {
        let role = self.state.calc_server_state(&self.config.id);
        if role != self.state.server_state {
            match role {
                ServerState::Leader => {
                    self.output.push_command(Command::BecomeLeader);
                },
                _ => {
                    if self.state.server_state == ServerState::Leader {
                        self.output.push_command(Command::QuitLeader);
                    }
                },
            }
            self.state.server_state = role;
        }
    }

    /// Enter the leadership that the committed vote gives this node.
    fn become_leader(&mut self)
        ensures
            final(self)@ == (EngineView {
                leader: Some(old(self)@.leadership()),
                candidate: None,
                ..old(self)@
            }).with_role(),
    {
        let vote = self.state.vote_ref().clone();
        let leader = match self.leader.take() {
            Some(leader) => {
                if leader.vote.leader_id == vote.leader_id {
                    Leader { vote, ..leader }
                } else {
                    Leader::new(vote, copied(self.state.last_log_id()))
                }
            },
            None => Leader::new(vote, copied(self.state.last_log_id())),
        };
        self.leader = Some(leader);
        self.candidate = None;
        self.update_server_state_if_changed();
    }

    /// Follow the node that the vote is for.
    fn become_following(&mut self)
        ensures
            final(self)@ == (EngineView { leader: None, candidate: None, ..old(self)@ }).with_role(),
    {
        self.leader = None;
        self.candidate = None;
        self.update_server_state_if_changed();
    }

    /// Take a vote, unless it is smaller than the one the node holds, and
    /// return that one then.
    pub fn update_vote(&mut self, vote: &Vote<C::NodeId>, now: Instant) -> (r: Result<
        (),
        Vote<C::NodeId>,
    >)
        ensures
            vote.before(old(self)@.vote()) ==> r == Err::<(), _>(old(self)@.vote()) && *final(self)
                == *old(self),
            !vote.before(old(self)@.vote()) ==> r is Ok && final(self)@ == old(self)@.after_vote(
                *vote,
                now,
            ),
    {
        if vote.precedes(self.state.vote_ref()) {
            return Err(self.state.vote_ref().clone());
        }
        if self.state.vote_ref().precedes(vote) {
            self.state.vote.update(now, vote.clone());
            self.output.push_command(Command::SaveVote { vote: vote.clone() });
        } else {
            self.state.vote.touch(now);
        }
        if self.state.is_leader(&self.config.id) {
            self.become_leader();
        } else if !self.state.is_leading(&self.config.id) {
            self.become_following();
        }
        Ok(())
    }

    /// Start to campaign for the next term. A retiring node does not.
    ///
    /// The vote is persisted before the other voters are asked for theirs, and
    /// no leadership follows from asking: a quorum has to grant the vote.
    pub fn elect(&mut self, start: CampaignStart)
        requires
            !old(self)@.retiring() ==> old(self)@.can_campaign(),
        ensures
            final(self)@ == old(self)@.after_elect(start),
            !old(self)@.retiring() ==> final(self).config.in_range(),
    {
        if self.prepared_shutdown.is_some() {
            return ;
        }
        let vote = Vote::new(self.state.vote_ref().leader_id.term + 1, self.config.id.dup());
        let last_log_id = copied(self.state.last_log_id());
        self.config.timer_config = TimerConfig {
            election_timeout: drawn(
                self.config.election_timeout_min,
                self.config.election_timeout_max,
                start.sample,
            ),
            smaller_log_timeout: self.config.timer_config.smaller_log_timeout,
            leader_lease: self.config.timer_config.leader_lease,
        };
        self.candidate = Some(
            Candidate::new(
                vote.clone(),
                copied(self.state.last_log_id()),
                self.state.membership_state.effective.membership.to_quorum_set(),
            ),
        );
        let _ = self.update_vote(&vote, start.now);
        self.output.push_command(
            Command::SendVote { vote_req: VoteRequest::new(vote, last_log_id) },
        );
        self.update_server_state_if_changed();
    }

    /// Answer a vote request. Retirement makes no difference to the answer.
    pub fn handle_vote_req(&mut self, req: VoteRequest<C::NodeId>, now: Instant) -> (r:
        VoteResponse<C::NodeId>)
        ensures
            final(self)@ == old(self)@.after_vote_req(req, now),
            r == (VoteResponse {
                vote: final(self)@.vote(),
                vote_granted: old(self)@.grants(req, now),
                last_log_id: old(self)@.state.end_of_log(),
            }),
    {
        let lease: u64 = self.config.timer_config.leader_lease;
        let leased = self.state.vote_ref().is_committed() && self.state.vote.is_leased(now, lease);
        let shorter = log_precedes(req.last_log_id.as_ref(), self.state.last_log_id());
        let granted = !leased && !shorter && self.update_vote(&req.vote, now).is_ok();
        VoteResponse::new(
            self.state.vote_ref().clone(),
            copied(self.state.last_log_id()),
            granted,
        )
    }

    /// Take an answer to this node's vote request. An answer that comes when
    /// there is no campaign, or no longer one, is ignored.
    pub fn handle_vote_resp(
        &mut self,
        target: C::NodeId,
        resp: VoteResponse<C::NodeId>,
        now: Instant,
    )
        ensures
            final(self)@ == old(self)@.after_vote_resp(target, resp, now),
    {
        if let Some(mut candidate) = self.candidate.take() {
            if resp.vote_granted && resp.vote == candidate.vote {
                if candidate.grant_by(&target) {
                    let vote = Vote { leader_id: candidate.vote.leader_id, committed: true };
                    let _ = self.update_vote(&vote, now);
                } else {
                    self.candidate = Some(candidate);
                }
            } else {
                self.candidate = Some(candidate);
                let _ = self.update_vote(&resp.vote, now);
            }
        }
    }
}

} // verus!
