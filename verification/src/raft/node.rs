use vstd::prelude::*;

use crate::raft::ids::IdSet;
use crate::raft::log::{copy_entries, Command, LogEntry, LogView, RaftLog};
use crate::raft::message::{
    AppendEntriesRequest, AppendEntriesResponse, ClientCommand, ClientRequest, ClientResponse,
    RequestVoteRequest, RequestVoteResponse,
};
use crate::raft::quorum::{largest_reached_by, lemma_largest_reached_by, sort_ascending};
use crate::raft::state::{
    clone_id, uniform, ElectionConfig, ElectionTimer, LeaderState, NodeState, PersistentState,
    VolatileState,
};

verus! {

impl PersistentState {
    /// The state after `update_term(term)`.
    pub open spec fn with_term(self, term: u64) -> PersistentState {
        if term > self.current_term {
            PersistentState { current_term: term, voted_for: None }
        } else {
            self
        }
    }
}

/// The entries that a log holds at each of `indices`, in order, skipping the indices
/// it does not reach.
pub open spec fn present_entries(log: LogView, indices: Seq<u64>) -> Seq<LogEntry>
    decreases indices.len(),
{
    if indices.len() == 0 {
        Seq::empty()
    } else {
        let rest = present_entries(log, indices.drop_last());
        match log.entry_at(indices.last()) {
            Some(e) => rest.push(e),
            None => rest,
        }
    }
}

/// One member of a Raft cluster.
#[derive(Debug)]
pub struct RaftNode {
    pub id: String,
    pub peers: Vec<String>,
    pub state: NodeState,
    pub persistent: PersistentState,
    pub volatile: VolatileState,
    pub log: RaftLog,
    pub leader_state: Option<LeaderState>,
    pub current_leader: Option<String>,
    pub election_timer: ElectionTimer,
    pub votes_received: IdSet,
}

impl RaftNode {
    /// The node's parts are in a state its operations can work with.
    pub open spec fn wf(&self) -> bool {
        &&& self.peers@.len() < usize::MAX
        &&& self.election_timer.config.valid()
        &&& self.votes_received.wf()
        &&& (self.leader_state matches Some(ls) ==> ls.wf())
    }

    /// The number of votes, this node's included, that wins an election.
    pub open spec fn quorum(&self) -> nat {
        ((self.peers@.len() + 1) / 2 + 1) as nat
    }

    /// The node's term.
    pub open spec fn term(&self) -> u64 {
        self.persistent.current_term
    }

    /// `next` keeps the vote that this node has cast: its term is newer, or it is the
    /// same term and a vote cast in it still goes to the same candidate.
    pub open spec fn keeps_vote(self, next: RaftNode) -> bool {
        ||| next.term() > self.term()
        ||| next.term() == self.term() && (self.persistent.voted_for matches Some(c)
            ==> next.persistent.voted_for matches Some(d) && d@ == c@)
    }

    /// `self` is `old` after stepping down to follower with `term`, the election
    /// timer restarted.
    pub open spec fn stepped_down_from(self, old: RaftNode, term: u64) -> bool {
        &&& self.state == NodeState::Follower
        &&& self.persistent == old.persistent.with_term(term)
        &&& self.leader_state is None
        &&& self.votes_received@ == Set::<Seq<char>>::empty()
        &&& self.id == old.id
        &&& self.peers == old.peers
        &&& self.volatile == old.volatile
        &&& self.log == old.log
        &&& self.current_leader == old.current_leader
        &&& self.election_timer.config == old.election_timer.config
        &&& self.election_timer.drawn()
    }

    /// `self` is `old` after winning the election: it leads, with fresh progress for
    /// each peer and a no-op entry of its term at the end of its log.
    pub open spec fn promoted_from(self, old: RaftNode) -> bool {
        &&& self.state == NodeState::Leader
        &&& self.current_leader == Some(old.id)
        &&& self.leader_state matches Some(ls) && ls.next_index@ == uniform(
            old.peers@,
            (old.log@.last_index + 1) as u64,
        ) && ls.match_index@ == uniform(old.peers@, 0) && (forall|i: int|
            0 <= i < ls.match_index.values().len() ==> #[trigger] ls.match_index.values()[i] == 0)
        &&& self.votes_received@ == Set::<Seq<char>>::empty()
        &&& self.log@ == old.log@.pushed(
            LogEntry {
                term: old.persistent.current_term,
                index: (old.log@.last_index + 1) as u64,
                command: Command::Noop,
            },
        )
        &&& self.id == old.id
        &&& self.peers == old.peers
        &&& self.persistent == old.persistent
        &&& self.volatile == old.volatile
        &&& self.election_timer == old.election_timer
    }

    fn fresh(id: String, peers: Vec<String>, config: ElectionConfig) -> (n: Self)
        requires
            peers@.len() < usize::MAX,
            config.valid(),
        ensures
            n.wf(),
            n.id == id,
            n.peers == peers,
            n.state == NodeState::Follower,
            n.persistent.current_term == 0,
            n.persistent.voted_for is None,
            n.volatile.commit_index == 0,
            n.volatile.last_applied == 0,
            n.log@ == (LogView { entries: Seq::empty(), last_index: 0, last_term: 0 }),
            n.leader_state is None,
            n.current_leader is None,
            n.election_timer.config == config,
            n.election_timer.drawn(),
            n.votes_received@ == Set::<Seq<char>>::empty(),
    {
        RaftNode {
            id,
            peers,
            state: NodeState::Follower,
            persistent: PersistentState::new(),
            volatile: VolatileState::new(),
            log: RaftLog::new(),
            leader_state: None,
            current_leader: None,
            election_timer: ElectionTimer::new(config),
            votes_received: IdSet::new(),
        }
    }

    /// A follower in term zero with an empty log and the default election timing.
    pub fn new(id: String, peers: Vec<String>) -> (n: Self)
        requires
            peers@.len() < usize::MAX,
        ensures
            n.wf(),
            n.id == id,
            n.peers == peers,
            n.state == NodeState::Follower,
            n.persistent.current_term == 0,
            n.persistent.voted_for is None,
            n.volatile.commit_index == 0,
            n.volatile.last_applied == 0,
            n.log@ == (LogView { entries: Seq::empty(), last_index: 0, last_term: 0 }),
            n.leader_state is None,
            n.current_leader is None,
            n.election_timer.config.min_timeout_ms == 150,
            n.election_timer.config.max_timeout_ms == 300,
            n.election_timer.config.heartbeat_interval_ms == 50,
            n.election_timer.drawn(),
            n.votes_received@ == Set::<Seq<char>>::empty(),
    {
        let config = ElectionConfig::default();
        Self::fresh(id, peers, config)
    }

    /// A follower in term zero with an empty log and the given election timing.
    pub fn with_config(id: String, peers: Vec<String>, config: ElectionConfig) -> (n: Self)
        requires
            peers@.len() < usize::MAX,
            config.valid(),
        ensures
            n.wf(),
            n.id == id,
            n.peers == peers,
            n.state == NodeState::Follower,
            n.persistent.current_term == 0,
            n.persistent.voted_for is None,
            n.volatile.commit_index == 0,
            n.volatile.last_applied == 0,
            n.log@ == (LogView { entries: Seq::empty(), last_index: 0, last_term: 0 }),
            n.leader_state is None,
            n.current_leader is None,
            n.election_timer.config == config,
            n.election_timer.drawn(),
            n.votes_received@ == Set::<Seq<char>>::empty(),
    {
        Self::fresh(id, peers, config)
    }

    pub fn is_leader(&self) -> (b: bool)
        ensures
            b == (self.state == NodeState::Leader),
    {
        self.state == NodeState::Leader
    }

    pub fn is_candidate(&self) -> (b: bool)
        ensures
            b == (self.state == NodeState::Candidate),
    {
        self.state == NodeState::Candidate
    }

    pub fn is_follower(&self) -> (b: bool)
        ensures
            b == (self.state == NodeState::Follower),
    {
        self.state == NodeState::Follower
    }

    pub fn current_term(&self) -> (t: u64)
        ensures
            t == self.persistent.current_term,
    {
        self.persistent.current_term
    }

    pub fn commit_index(&self) -> (c: u64)
        ensures
            c == self.volatile.commit_index,
    {
        self.volatile.commit_index
    }

    /// The number of nodes in the cluster: the peers and this node.
    pub fn cluster_size(&self) -> (n: usize)
        requires
            self.peers@.len() < usize::MAX,
        ensures
            n == self.peers@.len() + 1,
    {
        self.peers.len() + 1
    }

    /// The number of nodes that form a majority of the cluster.
    pub fn quorum_size(&self) -> (n: usize)
        requires
            self.peers@.len() < usize::MAX,
        ensures
            n == self.quorum(),
    {
        (self.cluster_size() / 2) + 1
    }

    /// Steps down to follower, moving to `term` when it is newer.
    pub fn become_follower(&mut self, term: u64)
        requires
            old(self).wf(),
        ensures
            final(self).wf(),
            old(self).keeps_vote(*final(self)),
            final(self).stepped_down_from(*old(self), term),
    {
        self.state = NodeState::Follower;
        self.persistent.update_term(term);
        self.leader_state = None;
        self.votes_received.clear();
        self.election_timer.reset();
    }

    /// Starts an election: a new term, a vote for itself, candidate role.
    pub fn start_election(&mut self)
        requires
            old(self).wf(),
            old(self).persistent.current_term < u64::MAX,
        ensures
            final(self).wf(),
            old(self).keeps_vote(*final(self)),
            final(self).state == NodeState::Candidate,
            final(self).persistent.current_term == old(self).persistent.current_term + 1,
            final(self).persistent.voted_for == Some(old(self).id),
            final(self).leader_state is None,
            final(self).current_leader is None,
            final(self).votes_received@ == Set::<Seq<char>>::empty().insert(old(self).id@),
            final(self).id == old(self).id,
            final(self).peers == old(self).peers,
            final(self).volatile == old(self).volatile,
            final(self).log == old(self).log,
            final(self).election_timer.config == old(self).election_timer.config,
            final(self).election_timer.drawn(),
    {
        self.persistent.current_term = self.persistent.current_term + 1;
        self.persistent.voted_for = Some(self.id.clone());
        self.state = NodeState::Candidate;
        self.leader_state = None;
        self.current_leader = None;
        self.votes_received.clear();
        self.votes_received.insert(self.id.clone());
        self.election_timer.reset();
    }

    /// The vote request this node sends as a candidate.
    pub fn create_request_vote(&self) -> (r: RequestVoteRequest)
        ensures
            r == (RequestVoteRequest {
                term: self.persistent.current_term,
                candidate_id: self.id,
                last_log_index: self.log@.last_index,
                last_log_term: self.log@.last_term,
            }),
    {
        RequestVoteRequest::new(
            self.persistent.current_term,
            self.id.clone(),
            self.log.last_index(),
            self.log.last_term(),
        )
    }

    /// Takes the lead: fresh progress for every peer, and a no-op entry of the current
    /// term appended to the log.
    pub fn become_leader(&mut self)
        requires
            old(self).wf(),
            old(self).log@.last_index < u64::MAX,
        ensures
            final(self).wf(),
            old(self).keeps_vote(*final(self)),
            final(self).promoted_from(*old(self)),
    {
        self.state = NodeState::Leader;
        self.current_leader = Some(self.id.clone());
        self.leader_state = Some(LeaderState::new(self.peers.as_slice(), self.log.last_index()));
        self.votes_received.clear();
        self.log.append(self.persistent.current_term, Command::Noop);
    }

    /// Whether an election is due, given whether the election timer has expired: only
    /// a node that does not lead starts one.
    pub fn election_due(&self, expired: bool) -> (b: bool)
        ensures
            b == (self.state != NodeState::Leader && expired),
    {
        self.state != NodeState::Leader && expired
    }

    /// Whether a node that does not lead has waited past its election timeout. The
    /// timer's reading depends on the clock, so the contract states only that a leader
    /// never answers true; `election_due` states the decision for a given reading.
    pub fn should_start_election(&self) -> (b: bool)
        ensures
            self.state == NodeState::Leader ==> !b,
    {
        self.election_due(self.election_timer.is_expired())
    }
}


impl RaftNode {
    /// Whether this node grants its vote for `req`: the request's term is not behind,
    /// the vote of that term is free or already went to the candidate, and the
    /// candidate's log is at least as up to date.
    pub open spec fn grants_vote(&self, req: RequestVoteRequest) -> bool {
        &&& req.term >= self.persistent.current_term
        &&& (req.term > self.persistent.current_term || self.persistent.voted_for is None
            || self.persistent.voted_for.unwrap()@ == req.candidate_id@)
        &&& self.log@.is_up_to_date(req.last_log_term, req.last_log_index)
    }

    /// `next` and `resp` are what `handle_request_vote` makes of `self` and `request`.
    pub open spec fn after_vote_request(
        self,
        next: RaftNode,
        request: RequestVoteRequest,
        resp: RequestVoteResponse,
    ) -> bool {
        &&& resp.voter_id == self.id
        &&& resp.vote_granted == self.grants_vote(request)
        &&& resp.term == next.persistent.current_term
        &&& request.term < self.term() ==> next == self
        &&& request.term >= self.term() ==> {
            &&& next.persistent.current_term == request.term
            &&& next.persistent.voted_for == (if self.grants_vote(request) {
                Some(request.candidate_id)
            } else if request.term > self.term() {
                None
            } else {
                self.persistent.voted_for
            })
            &&& request.term > self.term() ==> {
                &&& next.state == NodeState::Follower
                &&& next.leader_state is None
                &&& next.votes_received@ == Set::<Seq<char>>::empty()
            }
            &&& request.term == self.term() ==> {
                &&& next.state == self.state
                &&& next.leader_state == self.leader_state
                &&& next.votes_received == self.votes_received
            }
            &&& next.id == self.id
            &&& next.peers == self.peers
            &&& next.log == self.log
            &&& next.volatile == self.volatile
            &&& next.current_leader == self.current_leader
            &&& next.election_timer.config == self.election_timer.config
            &&& (request.term > self.term() || self.grants_vote(request))
                ==> next.election_timer.drawn()
            &&& !(request.term > self.term() || self.grants_vote(request))
                ==> next.election_timer == self.election_timer
        }
    }

    /// Answers a vote request. A request from an older term is denied and changes
    /// nothing; a newer term makes this node a follower in it; the vote is granted
    /// as `grants_vote` says, and then recorded and the election timer restarted.
    pub fn handle_request_vote(&mut self, request: &RequestVoteRequest) -> (resp:
        RequestVoteResponse)
        requires
            old(self).wf(),
        ensures
            final(self).wf(),
            old(self).keeps_vote(*final(self)),
            old(self).after_vote_request(*final(self), *request, resp),
    {
        if request.term < self.persistent.current_term {
            return RequestVoteResponse::denied(self.persistent.current_term, self.id.clone());
        }
        if request.term > self.persistent.current_term {
            self.become_follower(request.term);
        }
        let can_vote = match &self.persistent.voted_for {
            None => true,
            Some(voted_for) => *voted_for == request.candidate_id,
        };
        let log_ok = self.log.is_up_to_date(request.last_log_term, request.last_log_index);
        if can_vote && log_ok {
            self.persistent.voted_for = Some(request.candidate_id.clone());
            self.election_timer.reset();
            RequestVoteResponse::granted(self.persistent.current_term, self.id.clone())
        } else {
            RequestVoteResponse::denied(self.persistent.current_term, self.id.clone())
        }
    }

    /// Whether `response` completes a quorum of votes for this candidate.
    pub open spec fn wins_with(self, response: RequestVoteResponse) -> bool {
        &&& self.state == NodeState::Candidate
        &&& response.term == self.term()
        &&& response.vote_granted
        &&& self.votes_received@.insert(response.voter_id@).len() >= self.quorum()
    }

    /// `next` is what `handle_request_vote_response` makes of `self` and `response`.
    pub open spec fn after_vote_response(
        self,
        next: RaftNode,
        response: RequestVoteResponse,
    ) -> bool {
        &&& response.term > self.term() ==> next.stepped_down_from(self, response.term)
        &&& response.term <= self.term() && !(self.state == NodeState::Candidate && response.term
            == self.term() && response.vote_granted) ==> next == self
        &&& self.wins_with(response) ==> next.promoted_from(self)
        &&& self.state == NodeState::Candidate && response.term == self.term()
            && response.vote_granted && !self.wins_with(response) ==> {
            &&& next.votes_received@ == self.votes_received@.insert(response.voter_id@)
            &&& next.votes_received.wf()
            &&& next == RaftNode { votes_received: next.votes_received, ..self }
        }
    }

    /// Counts a vote answer as a candidate. A newer term makes this node a follower;
    /// an answer that is not for its current candidacy changes nothing; a granted vote
    /// is recorded, and once the votes reach a quorum the node becomes leader, which
    /// is the only case that returns true.
    pub fn handle_request_vote_response(&mut self, response: &RequestVoteResponse) -> (won: bool)
        requires
            old(self).wf(),
            old(self).wins_with(*response) ==> old(self).log@.last_index < u64::MAX,
        ensures
            final(self).wf(),
            old(self).keeps_vote(*final(self)),
            won == old(self).wins_with(*response),
            old(self).after_vote_response(*final(self), *response),
    {
        if response.term > self.persistent.current_term {
            self.become_follower(response.term);
            return false;
        }
        if self.state != NodeState::Candidate {
            return false;
        }
        if response.term != self.persistent.current_term {
            return false;
        }
        if response.vote_granted {
            self.votes_received.insert(response.voter_id.clone());
            if self.votes_received.len() >= self.quorum_size() {
                self.become_leader();
                return true;
            }
        }
        false
    }

    /// Whether taking `response` wins this candidate the election.
    pub fn vote_completes_quorum(&self, response: &RequestVoteResponse) -> (b: bool)
        requires
            self.wf(),
        ensures
            b == self.wins_with(*response),
    {
        if self.state != NodeState::Candidate || response.term != self.persistent.current_term
            || !response.vote_granted {
            return false;
        }
        proof {
            self.votes_received.lemma_finite();
        }
        let have = self.votes_received.len();
        let needed = self.quorum_size();
        if self.votes_received.contains(response.voter_id.as_str()) {
            have >= needed
        } else {
            have >= needed - 1
        }
    }
}


impl RaftNode {
    /// The next index this leader sends to `peer`.
    pub open spec fn next_index_for(&self, peer: Seq<char>) -> u64 {
        self.leader_state.unwrap().next_index_of(peer)
    }

    /// Whether the log can give `peer` the entries from its next index on.
    pub open spec fn can_send_to(&self, peer: Seq<char>) -> bool {
        self.leader_state is Some ==> self.log@.from_is_defined(self.next_index_for(peer))
    }

    /// `r` is the append request this leader sends to `peer`: the entries from the
    /// peer's next index on, after the index and term just before them.
    pub open spec fn is_append_request_for(&self, peer: Seq<char>, r: AppendEntriesRequest) -> bool {
        let next = self.next_index_for(peer);
        let prev = if next > 0 {
            (next - 1) as u64
        } else {
            0
        };
        &&& r.term == self.persistent.current_term
        &&& r.leader_id == self.id
        &&& r.prev_log_index == prev
        &&& r.prev_log_term == (match self.log@.term_at(prev) {
            Some(t) => t,
            None => 0,
        })
        &&& r.entries@ == self.log@.entries_from(next)
        &&& r.leader_commit == self.volatile.commit_index
    }

    /// The append request for `peer`, when this node leads.
    pub fn create_append_entries(&self, peer: &str) -> (r: Option<AppendEntriesRequest>)
        requires
            self.wf(),
            self.state == NodeState::Leader ==> self.can_send_to(peer@),
        ensures
            (self.state != NodeState::Leader || self.leader_state is None) ==> r is None,
            (self.state == NodeState::Leader && self.leader_state is Some) ==> r is Some
                && self.is_append_request_for(peer@, r.unwrap()),
    {
        if self.state != NodeState::Leader {
            return None;
        }
        let leader_state = match self.leader_state.as_ref() {
            Some(ls) => ls,
            None => return None,
        };
        let next_index = leader_state.get_next_index(peer);
        let prev_log_index = if next_index > 0 {
            next_index - 1
        } else {
            0
        };
        let prev_log_term = match self.log.term_at(prev_log_index) {
            Some(t) => t,
            None => 0,
        };
        let entries = self.log.get_from(next_index);
        Some(
            AppendEntriesRequest::with_entries(
                self.persistent.current_term,
                self.id.clone(),
                prev_log_index,
                prev_log_term,
                entries,
                self.volatile.commit_index,
            ),
        )
    }

    /// One append request per peer, in the order of the peers, when this node leads;
    /// none otherwise.
    pub fn create_heartbeats(&self) -> (r: Vec<(String, AppendEntriesRequest)>)
        requires
            self.wf(),
            self.state == NodeState::Leader ==> forall|i: int|
                0 <= i < self.peers@.len() ==> self.can_send_to(#[trigger] self.peers@[i]@),
        ensures
            (self.state != NodeState::Leader || self.leader_state is None) ==> r@.len() == 0,
            (self.state == NodeState::Leader && self.leader_state is Some) ==> {
                &&& r@.len() == self.peers@.len()
                &&& forall|i: int|
                    0 <= i < r@.len() ==> (#[trigger] r@[i]).0 == self.peers@[i]
                        && self.is_append_request_for(self.peers@[i]@, r@[i].1)
            },
    {
        let mut out: Vec<(String, AppendEntriesRequest)> = Vec::new();
        if self.state != NodeState::Leader {
            return out;
        }
        let mut i: usize = 0;
        while i < self.peers.len()
            invariant
                self.wf(),
                self.state == NodeState::Leader,
                forall|j: int|
                    0 <= j < self.peers@.len() ==> self.can_send_to(#[trigger] self.peers@[j]@),
                i <= self.peers@.len(),
                self.leader_state is None ==> out@.len() == 0,
                self.leader_state is Some ==> out@.len() == i,
                self.leader_state is Some ==> forall|j: int|
                    0 <= j < out@.len() ==> (#[trigger] out@[j]).0 == self.peers@[j]
                        && self.is_append_request_for(self.peers@[j]@, out@[j].1),
            decreases self.peers@.len() - i,
        {
            let peer = &self.peers[i];
            assert(self.can_send_to(self.peers@[i as int]@));
            match self.create_append_entries(peer.as_str()) {
                Some(req) => {
                    out.push((peer.clone(), req));
                },
                None => {},
            }
            i = i + 1;
        }
        out
    }
}


impl RaftNode {
    /// Whether an append request from a leader of `term` makes this node step down.
    pub open spec fn steps_down_for(&self, term: u64) -> bool {
        term > self.persistent.current_term || self.state == NodeState::Candidate
    }

    /// `next` and `resp` are what `handle_append_entries` makes of `self` and `request`.
    pub open spec fn after_append_request(
        self,
        next: RaftNode,
        request: AppendEntriesRequest,
        resp: AppendEntriesResponse,
    ) -> bool {
        &&& request.term < self.term() ==> next == self && resp == (AppendEntriesResponse {
            term: self.term(),
            success: false,
            follower_id: self.id,
            match_index: self.log@.last_index,
        })
        &&& request.term >= self.term() ==> {
            let ok = self.log@.matches(request.prev_log_index, request.prev_log_term);
            &&& resp.term == request.term
            &&& resp.success == ok
            &&& resp.follower_id == self.id
            &&& resp.match_index == next.log@.last_index
            &&& next.current_leader == Some(request.leader_id)
            &&& next.persistent == self.persistent.with_term(request.term)
            &&& self.steps_down_for(request.term) ==> {
                &&& next.state == NodeState::Follower
                &&& next.leader_state is None
                &&& next.votes_received@ == Set::<Seq<char>>::empty()
            }
            &&& !self.steps_down_for(request.term) ==> {
                &&& next.state == self.state
                &&& next.leader_state == self.leader_state
                &&& next.votes_received == self.votes_received
            }
            &&& next.log@ == (if ok {
                self.log@.receive_all(request.entries@)
            } else {
                self.log@
            })
            &&& next.volatile.commit_index == (if ok && request.leader_commit
                > self.volatile.commit_index {
                if request.leader_commit < next.log@.last_index {
                    request.leader_commit
                } else {
                    next.log@.last_index
                }
            } else {
                self.volatile.commit_index
            })
            &&& next.volatile.last_applied == self.volatile.last_applied
            &&& next.id == self.id
            &&& next.peers == self.peers
            &&& next.election_timer.config == self.election_timer.config
            &&& next.election_timer.drawn()
        }
    }

    /// Takes an append request as a follower. A request from an older term is refused
    /// and changes nothing. Otherwise the sender becomes the known leader, the election
    /// timer restarts, a newer term or a candidacy turns this node into a follower, and
    /// the log receives the entries when it holds the request's previous entry; the
    /// commit index then follows the leader's, up to the log's last index.
    pub fn handle_append_entries(&mut self, request: &AppendEntriesRequest) -> (resp:
        AppendEntriesResponse)
        requires
            old(self).wf(),
        ensures
            final(self).wf(),
            old(self).keeps_vote(*final(self)),
            old(self).after_append_request(*final(self), *request, resp),
    {
        if request.term < self.persistent.current_term {
            return AppendEntriesResponse::failure(
                self.persistent.current_term,
                self.id.clone(),
                self.log.last_index(),
            );
        }
        self.election_timer.reset();
        self.current_leader = Some(request.leader_id.clone());
        if request.term > self.persistent.current_term {
            self.become_follower(request.term);
        } else if self.state == NodeState::Candidate {
            self.become_follower(request.term);
        }
        let entries = copy_entries(&request.entries, 0, request.entries.len());
        assert(entries@ =~= request.entries@);
        let success = self.log.handle_append_entries(
            request.prev_log_index,
            request.prev_log_term,
            entries,
        );
        if !success {
            return AppendEntriesResponse::failure(
                self.persistent.current_term,
                self.id.clone(),
                self.log.last_index(),
            );
        }
        if request.leader_commit > self.volatile.commit_index {
            let last = self.log.last_index();
            self.volatile.commit_index = if request.leader_commit < last {
                request.leader_commit
            } else {
                last
            };
        }
        AppendEntriesResponse::success(
            self.persistent.current_term,
            self.id.clone(),
            self.log.last_index(),
        )
    }

    /// The progress of the cluster as the leader sees it: each peer's match index, and
    /// the leader's own last log index.
    pub open spec fn progress_values(&self) -> Seq<u64> {
        self.leader_state.unwrap().match_index.values().push(self.log@.last_index)
    }

    /// The candidate for the next commit index: the largest index that a majority of the
    /// cluster holds, the leader counted by its last log index.
    pub open spec fn commit_candidate(&self) -> u64 {
        largest_reached_by(self.progress_values(), self.quorum())
    }

    /// Whether the leader's progress map, with the leader, covers a quorum, so that a
    /// commit candidate exists.
    pub open spec fn progress_covers_quorum(&self) -> bool {
        self.leader_state.unwrap().match_index.values().len() + 1 >= self.quorum()
    }

    /// The commit index after a leader looks for a newer index held by a majority:
    /// the commit candidate when it is past the commit index and of the current term.
    pub open spec fn advanced_commit(&self) -> u64 {
        let c = self.commit_candidate();
        if c > self.volatile.commit_index && self.log@.term_at(c) == Some(
            self.persistent.current_term,
        ) {
            c
        } else {
            self.volatile.commit_index
        }
    }

    fn try_advance_commit_index(&mut self)
        requires
            old(self).wf(),
            old(self).state == NodeState::Leader && old(self).leader_state is Some ==> old(self).progress_covers_quorum(),
        ensures
            (old(self).state != NodeState::Leader || old(self).leader_state is None) ==> *final(self) == *old(self),
            (old(self).state == NodeState::Leader && old(self).leader_state is Some) ==> *final(self) == (RaftNode {
                volatile: VolatileState {
                    commit_index: old(self).advanced_commit(),
                    ..old(self).volatile
                },
                ..*old(self)
            }),
    {
        if self.state != NodeState::Leader {
            return;
        }
        let leader_state = match self.leader_state.as_ref() {
            Some(ls) => ls,
            None => return,
        };
        let mut match_indices = leader_state.match_index.value_list();
        match_indices.push(self.log.last_index());
        let ghost values = match_indices@;
        let sorted = sort_ascending(match_indices);
        proof {
            crate::raft::quorum::lemma_sorted_values(values);
            lemma_largest_reached_by(values, self.quorum());
        }
        let majority_idx = sorted.len() - self.quorum_size();
        let potential_commit = sorted[majority_idx];
        if potential_commit > self.volatile.commit_index {
            match self.log.term_at(potential_commit) {
                Some(term) => {
                    if term == self.persistent.current_term {
                        self.volatile.commit_index = potential_commit;
                    }
                },
                None => {},
            }
        }
    }

    /// `next` is what `handle_append_entries_response` makes of `self` and `response`.
    pub open spec fn after_append_response(
        self,
        next: RaftNode,
        response: AppendEntriesResponse,
    ) -> bool {
        &&& response.term > self.term() ==> next.stepped_down_from(self, response.term)
        &&& response.term <= self.term() && (self.state != NodeState::Leader
            || self.leader_state is None) ==> next == self
        &&& response.term <= self.term() && self.state == NodeState::Leader
            && self.leader_state is Some ==> {
            let ls = self.leader_state.unwrap();
            let fs = next.leader_state.unwrap();
            &&& next.leader_state is Some
            &&& response.success ==> {
                &&& fs.match_index@ == (if ls.match_index@.contains_key(response.follower_id@) {
                    ls.match_index@.insert(response.follower_id@, response.match_index)
                } else {
                    ls.match_index@
                })
                &&& fs.next_index@ == (if ls.next_index@.contains_key(response.follower_id@) {
                    ls.next_index@.insert(
                        response.follower_id@,
                        (response.match_index + 1) as u64,
                    )
                } else {
                    ls.next_index@
                })
                &&& next.volatile.commit_index == (RaftNode {
                    leader_state: next.leader_state,
                    ..self
                }).advanced_commit()
            }
            &&& !response.success ==> {
                &&& fs.match_index == ls.match_index
                &&& fs.next_index@ == (if ls.next_index@.contains_key(response.follower_id@)
                    && ls.next_index@[response.follower_id@] > 1 {
                    ls.next_index@.insert(
                        response.follower_id@,
                        (ls.next_index@[response.follower_id@] - 1) as u64,
                    )
                } else {
                    ls.next_index@
                })
                &&& next.volatile.commit_index == self.volatile.commit_index
            }
            &&& next.volatile.last_applied == self.volatile.last_applied
            &&& next.state == self.state
            &&& next.persistent == self.persistent
            &&& next.log == self.log
            &&& next.id == self.id
            &&& next.peers == self.peers
            &&& next.current_leader == self.current_leader
            &&& next.votes_received == self.votes_received
            &&& next.election_timer == self.election_timer
        }
    }

    /// Takes a follower's answer as leader. A newer term makes this node a follower;
    /// an answer reaching a node that does not lead changes nothing. A success records
    /// the follower's progress and may advance the commit index; a failure moves the
    /// follower's next index one back.
    pub fn handle_append_entries_response(&mut self, response: &AppendEntriesResponse)
        requires
            old(self).wf(),
            response.term <= old(self).term() && old(self).state == NodeState::Leader && old(self).leader_state is Some && response.success ==> {
                &&& old(self).leader_state.unwrap().next_index@.contains_key(response.follower_id@)
                    ==> response.match_index < u64::MAX
                &&& old(self).progress_covers_quorum()
            },
        ensures
            final(self).wf(),
            old(self).keeps_vote(*final(self)),
            old(self).after_append_response(*final(self), *response),
    {
        if response.term > self.persistent.current_term {
            self.become_follower(response.term);
            return;
        }
        if self.state != NodeState::Leader {
            return;
        }
        let mut leader_state = match self.leader_state.take() {
            Some(ls) => ls,
            None => return,
        };
        if response.success {
            leader_state.update_peer_progress(response.follower_id.as_str(), response.match_index);
            self.leader_state = Some(leader_state);
            self.try_advance_commit_index();
        } else {
            leader_state.decrement_next_index(response.follower_id.as_str());
            self.leader_state = Some(leader_state);
        }
    }
}


impl RaftNode {
    /// `next` and `resp` are what `handle_client_request` makes of `self` and `request`.
    pub open spec fn after_client_request(
        self,
        next: RaftNode,
        request: ClientRequest,
        resp: ClientResponse,
    ) -> bool {
        &&& self.state != NodeState::Leader ==> {
            &&& next == self
            &&& resp.request_id == request.request_id
            &&& !resp.success
            &&& resp.result is Some && resp.result.unwrap()@ == "Not the leader"@
            &&& resp.leader_hint == self.current_leader
        }
        &&& self.state == NodeState::Leader ==> {
            &&& resp == (ClientResponse {
                request_id: request.request_id,
                success: true,
                result: None,
                leader_hint: None,
            })
            &&& next.log@ == match request.command {
                ClientCommand::Get { .. } => self.log@,
                ClientCommand::Put { key, value } => self.log@.pushed(
                    LogEntry {
                        term: self.term(),
                        index: (self.log@.last_index + 1) as u64,
                        command: Command::Put { key, value },
                    },
                ),
                ClientCommand::Delete { key } => self.log@.pushed(
                    LogEntry {
                        term: self.term(),
                        index: (self.log@.last_index + 1) as u64,
                        command: Command::Delete { key },
                    },
                ),
            }
            &&& next == (RaftNode { log: next.log, ..self })
        }
    }

    /// Serves a client request. A node that does not lead answers that it is not the
    /// leader, naming the leader it knows of. The leader answers a read with success and
    /// no value, and appends a write to its log in its term before answering success.
    pub fn handle_client_request(&mut self, request: &ClientRequest) -> (resp: ClientResponse)
        requires
            old(self).wf(),
            old(self).state == NodeState::Leader && !(request.command is Get) ==> old(self).log@.last_index < u64::MAX,
        ensures
            final(self).wf(),
            old(self).keeps_vote(*final(self)),
            old(self).after_client_request(*final(self), *request, resp),
    {
        if self.state != NodeState::Leader {
            return ClientResponse::not_leader(
                request.request_id.clone(),
                clone_id(&self.current_leader),
            );
        }
        match &request.command {
            ClientCommand::Get { key: _ } => {
                ClientResponse::success(request.request_id.clone(), None)
            },
            ClientCommand::Put { key, value } => {
                let _index = self.log.append(
                    self.persistent.current_term,
                    Command::Put { key: key.clone(), value: value.clone() },
                );
                ClientResponse::success(request.request_id.clone(), None)
            },
            ClientCommand::Delete { key } => {
                let _index = self.log.append(
                    self.persistent.current_term,
                    Command::Delete { key: key.clone() },
                );
                ClientResponse::success(request.request_id.clone(), None)
            },
        }
    }

    /// Marks every committed entry as applied and returns those entries, in log order.
    pub fn get_entries_to_apply(&mut self) -> (entries: Vec<LogEntry>)
        ensures
            old(self).keeps_vote(*final(self)),
            entries@ == present_entries(
                old(self).log@,
                crate::raft::state::index_range(
                    old(self).volatile.last_applied,
                    old(self).volatile.commit_index,
                ),
            ),
            final(self).volatile.commit_index == old(self).volatile.commit_index,
            final(self).volatile.last_applied == (if old(self).volatile.last_applied < old(self).volatile.commit_index {
                old(self).volatile.commit_index
            } else {
                old(self).volatile.last_applied
            }),
            *final(self) == (RaftNode { volatile: final(self).volatile, ..*old(self) }),
    {
        let indices = self.volatile.apply_entries();
        let mut out: Vec<LogEntry> = Vec::new();
        let mut i: usize = 0;
        while i < indices.len()
            invariant
                i <= indices@.len(),
                self.log == old(self).log,
                out@ == present_entries(self.log@, indices@.take(i as int)),
            decreases indices@.len() - i,
        {
            assert(indices@.take(i + 1).drop_last() =~= indices@.take(i as int));
            match self.log.get(indices[i]) {
                Some(e) => {
                    out.push(e.clone());
                },
                None => {},
            }
            i = i + 1;
        }
        assert(indices@.take(indices@.len() as int) =~= indices@);
        out
    }

    /// Whether some committed entry has not been applied yet.
    pub fn has_entries_to_apply(&self) -> (b: bool)
        ensures
            b == (self.volatile.last_applied < self.volatile.commit_index),
    {
        self.volatile.last_applied < self.volatile.commit_index
    }
}

} // verus!
