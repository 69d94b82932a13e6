use std::time::{Duration, Instant};
use vstd::prelude::*;

use crate::raft::clock::{
    duration_as_nanos, duration_from_millis, duration_nanos, duration_new, elapsed_since,
    instant_now, since_unix_epoch, subsec_nanos, system_now,
};
use crate::raft::ids::IdMap;
use crate::raft::quorum::{largest_reached_by, sort_ascending};

verus! {

/// The three roles a Raft node can take.
#[derive(Debug, Clone, Copy, PartialEq, Eq, Structural)]
pub enum NodeState {
    Follower,
    Candidate,
    Leader,
}

impl Default for NodeState {
    fn default() -> (s: Self)
        ensures
            s == NodeState::Follower,
    {
        NodeState::Follower
    }
}

impl NodeState {
    /// The role's name, as a node reports it.
    pub fn to_string(&self) -> (s: String)
        ensures
            *self == NodeState::Follower ==> s@ == "Follower"@,
            *self == NodeState::Candidate ==> s@ == "Candidate"@,
            *self == NodeState::Leader ==> s@ == "Leader"@,
    {
        match self {
            NodeState::Follower => "Follower".to_owned(),
            NodeState::Candidate => "Candidate".to_owned(),
            NodeState::Leader => "Leader".to_owned(),
        }
    }
}

/// A copy of an optional identifier.
pub fn clone_id(id: &Option<String>) -> (r: Option<String>)
    ensures
        r == *id,
{
    match id {
        Some(s) => Some(s.clone()),
        None => None,
    }
}

/// State that a node must keep across restarts.
#[derive(Debug)]
pub struct PersistentState {
    pub current_term: u64,
    pub voted_for: Option<String>,
}

impl Clone for PersistentState {
    fn clone(&self) -> (s: Self)
        ensures
            s == *self,
    {
        PersistentState { current_term: self.current_term, voted_for: clone_id(&self.voted_for) }
    }
}

impl Default for PersistentState {
    fn default() -> (s: Self)
        ensures
            s.current_term == 0,
            s.voted_for is None,
    {
        PersistentState::new()
    }
}

impl PersistentState {
    /// A fresh state: term zero, no vote cast.
    pub fn new() -> (s: Self)
        ensures
            s.current_term == 0,
            s.voted_for is None,
    {
        PersistentState { current_term: 0, voted_for: None }
    }

    /// Moves to `term` when it is newer, forgetting the vote cast in the old term.
    pub fn update_term(&mut self, term: u64)
        ensures
            term > old(self).current_term ==> final(self).current_term == term
                && final(self).voted_for is None,
            term <= old(self).current_term ==> *final(self) == *old(self),
    {
        if term > self.current_term {
            self.current_term = term;
            self.voted_for = None;
        }
    }

    /// Casts the vote of the current term for `candidate_id`, unless a vote was
    /// already cast; returns whether it was cast now.
    pub fn vote_for(&mut self, candidate_id: String) -> (cast: bool)
        ensures
            cast == (old(self).voted_for is None),
            cast ==> final(self).voted_for == Some(candidate_id),
            !cast ==> *final(self) == *old(self),
            final(self).current_term == old(self).current_term,
    {
        if self.voted_for.is_none() {
            self.voted_for = Some(candidate_id);
            true
        } else {
            false
        }
    }

    /// Whether the vote of the current term went to `candidate_id`.
    pub fn already_voted_for(&self, candidate_id: &str) -> (r: bool)
        ensures
            r == (self.voted_for is Some && self.voted_for.unwrap()@ == candidate_id@),
    {
        match &self.voted_for {
            Some(v) => crate::raft::ids::same_text(v.as_str(), candidate_id),
            None => false,
        }
    }
}

/// State that can be rebuilt after a restart.
#[derive(Debug)]
pub struct VolatileState {
    pub commit_index: u64,
    pub last_applied: u64,
}

impl Clone for VolatileState {
    fn clone(&self) -> (s: Self)
        ensures
            s == *self,
    {
        VolatileState { commit_index: self.commit_index, last_applied: self.last_applied }
    }
}

impl Default for VolatileState {
    fn default() -> (s: Self)
        ensures
            s.commit_index == 0,
            s.last_applied == 0,
    {
        VolatileState::new()
    }
}

/// The indices `from + 1` up to and including `to`; empty when `to <= from`.
pub open spec fn index_range(from: u64, to: u64) -> Seq<u64> {
    if to <= from {
        Seq::empty()
    } else {
        Seq::new((to - from) as nat, |i: int| (from + 1 + i) as u64)
    }
}

impl VolatileState {
    pub fn new() -> (s: Self)
        ensures
            s.commit_index == 0,
            s.last_applied == 0,
    {
        VolatileState { commit_index: 0, last_applied: 0 }
    }

    /// Raises the commit index to `new_index` when that is higher.
    pub fn update_commit_index(&mut self, new_index: u64)
        ensures
            final(self).commit_index == (if new_index > old(self).commit_index {
                new_index
            } else {
                old(self).commit_index
            }),
            final(self).last_applied == old(self).last_applied,
    {
        if new_index > self.commit_index {
            self.commit_index = new_index;
        }
    }

    /// Marks every committed index as applied; returns the indices newly applied,
    /// in increasing order.
    pub fn apply_entries(&mut self) -> (applied: Vec<u64>)
        ensures
            applied@ == index_range(old(self).last_applied, old(self).commit_index),
            final(self).commit_index == old(self).commit_index,
            final(self).last_applied == (if old(self).last_applied < old(self).commit_index {
                old(self).commit_index
            } else {
                old(self).last_applied
            }),
    {
        let mut applied: Vec<u64> = Vec::new();
        let ghost start = self.last_applied;
        while self.last_applied < self.commit_index
            invariant
                self.commit_index == old(self).commit_index,
                start == old(self).last_applied,
                start <= self.last_applied,
                start < self.commit_index ==> self.last_applied <= self.commit_index,
                start >= self.commit_index ==> self.last_applied == start,
                applied@ == index_range(start, self.last_applied),
            decreases self.commit_index - self.last_applied,
        {
            self.last_applied = self.last_applied + 1;
            applied.push(self.last_applied);
            assert(applied@ =~= index_range(start, self.last_applied));
        }
        applied
    }
}

/// The identifiers of `peers`.
pub open spec fn peer_names(peers: Seq<String>) -> Seq<Seq<char>> {
    peers.map_values(|s: String| s@)
}

/// The map that gives every one of `peers` the value `v`.
pub open spec fn uniform(peers: Seq<String>, v: u64) -> Map<Seq<char>, u64> {
    Map::new(|k: Seq<char>| peer_names(peers).contains(k), |k: Seq<char>| v)
}

/// What a leader keeps of each follower's replication progress.
#[derive(Debug)]
pub struct LeaderState {
    pub next_index: IdMap,
    pub match_index: IdMap,
}

impl Clone for LeaderState {
    fn clone(&self) -> (s: Self)
        ensures
            s.next_index@ == self.next_index@,
            s.next_index.values() == self.next_index.values(),
            s.next_index.wf() == self.next_index.wf(),
            s.match_index@ == self.match_index@,
            s.match_index.values() == self.match_index.values(),
            s.match_index.wf() == self.match_index.wf(),
    {
        LeaderState { next_index: self.next_index.clone(), match_index: self.match_index.clone() }
    }
}

impl LeaderState {
    /// Both maps keep each identifier once.
    pub open spec fn wf(&self) -> bool {
        self.next_index.wf() && self.match_index.wf()
    }

    /// Progress at the start of a term: each peer is sent entries from just after
    /// `last_log_index` and is known to match nothing.
    pub fn new(peers: &[String], last_log_index: u64) -> (s: Self)
        requires
            peers@.len() > 0 ==> last_log_index < u64::MAX,
        ensures
            s.wf(),
            s.next_index@ == uniform(peers@, (last_log_index + 1) as u64),
            s.match_index@ == uniform(peers@, 0),
            forall|i: int|
                0 <= i < s.match_index.values().len() ==> #[trigger] s.match_index.values()[i] == 0,
    {
        let mut next_index = IdMap::new();
        let mut match_index = IdMap::new();
        let mut i: usize = 0;
        while i < peers.len()
            invariant
                i <= peers.len(),
                peers@.len() > 0 ==> last_log_index < u64::MAX,
                next_index.wf(),
                match_index.wf(),
                next_index@ == uniform(peers@.take(i as int), (last_log_index + 1) as u64),
                match_index@ == uniform(peers@.take(i as int), 0),
                forall|j: int|
                    0 <= j < match_index.values().len() ==> #[trigger] match_index.values()[j] == 0,
            decreases peers.len() - i,
        {
            let ghost before = match_index.values();
            next_index.insert(peers[i].clone(), last_log_index + 1);
            match_index.insert(peers[i].clone(), 0);
            proof {
                assert(peer_names(peers@.take(i + 1)) =~= peer_names(peers@.take(i as int)).push(
                    peers@[i as int]@,
                ));
                broadcast use vstd::seq_lib::lemma_seq_contains_after_push;

                assert(next_index@ =~= uniform(peers@.take(i + 1), (last_log_index + 1) as u64));
                assert(match_index@ =~= uniform(peers@.take(i + 1), 0));
                assert forall|j: int|
                    0 <= j < match_index.values().len() implies #[trigger] match_index.values()[j]
                    == 0 by {
                    if j < before.len() {
                        assert(before[j] == 0);
                    }
                }
            }
            i = i + 1;
        }
        assert(peers@.take(peers@.len() as int) =~= peers@);
        LeaderState { next_index, match_index }
    }

    /// Records that `peer` holds the log up to `match_idx`: its match index becomes
    /// `match_idx` and its next index the one after. Unknown peers are ignored.
    pub fn update_peer_progress(&mut self, peer: &str, match_idx: u64)
        requires
            old(self).wf(),
            old(self).next_index@.contains_key(peer@) ==> match_idx < u64::MAX,
        ensures
            final(self).wf(),
            final(self).match_index@ == (if old(self).match_index@.contains_key(peer@) {
                old(self).match_index@.insert(peer@, match_idx)
            } else {
                old(self).match_index@
            }),
            final(self).next_index@ == (if old(self).next_index@.contains_key(peer@) {
                old(self).next_index@.insert(peer@, (match_idx + 1) as u64)
            } else {
                old(self).next_index@
            }),
            final(self).match_index.values().len() == old(self).match_index.values().len(),
    {
        self.match_index.set_existing(peer, match_idx);
        if self.next_index.get(peer).is_some() {
            self.next_index.set_existing(peer, match_idx + 1);
        }
    }

    /// Moves `peer`'s next index one back, but never below one.
    pub fn decrement_next_index(&mut self, peer: &str)
        requires
            old(self).wf(),
        ensures
            final(self).wf(),
            final(self).match_index == old(self).match_index,
            final(self).next_index@ == (if old(self).next_index@.contains_key(peer@)
                && old(self).next_index@[peer@] > 1 {
                old(self).next_index@.insert(peer@, (old(self).next_index@[peer@] - 1) as u64)
            } else {
                old(self).next_index@
            }),
    {
        match self.next_index.get(peer) {
            Some(n) => {
                if n > 1 {
                    self.next_index.set_existing(peer, n - 1);
                }
            },
            None => {},
        }
    }

    /// The next index to send to `peer`; one for an unknown peer.
    pub fn get_next_index(&self, peer: &str) -> (r: u64)
        requires
            self.wf(),
        ensures
            r == self.next_index_of(peer@),
    {
        match self.next_index.get(peer) {
            Some(n) => n,
            None => 1,
        }
    }

    /// The highest index known to be replicated on `peer`; zero for an unknown peer.
    pub fn get_match_index(&self, peer: &str) -> (r: u64)
        requires
            self.wf(),
        ensures
            r == (if self.match_index@.contains_key(peer@) {
                self.match_index@[peer@]
            } else {
                0
            }),
    {
        match self.match_index.get(peer) {
            Some(n) => n,
            None => 0,
        }
    }

    /// `get_next_index` in specifications.
    pub open spec fn next_index_of(&self, peer: Seq<char>) -> u64 {
        if self.next_index@.contains_key(peer) {
            self.next_index@[peer]
        } else {
            1
        }
    }

    /// The median of the peers' match indices: the largest index that at least half of
    /// the peers, rounded up, have reached.
    pub open spec fn median_match(&self) -> u64 {
        let n = self.match_index.values().len();
        largest_reached_by(self.match_index.values(), (n - n / 2) as nat)
    }

    /// The commit index after looking at the peers' progress: the median match index
    /// when it lies past `current_commit` and `log_term_at` gives it `current_term`;
    /// otherwise `current_commit`.
    pub fn calculate_commit_index(
        &self,
        current_commit: u64,
        current_term: u64,
        log_term_at: impl Fn(u64) -> Option<u64>,
    ) -> (r: u64)
        requires
            forall|i: u64| log_term_at.requires((i,)),
        ensures
            self.match_index.values().len() == 0 ==> r == current_commit,
            self.match_index.values().len() > 0 ==> {
                let p = self.median_match();
                ||| (r == p && p > current_commit && log_term_at.ensures((p,), Some(current_term)))
                ||| (r == current_commit && (p <= current_commit || exists|o: Option<u64>|
                    log_term_at.ensures((p,), o) && o != Some(current_term)))
            },
    {
        let match_indices = sort_ascending(self.match_index.value_list());
        proof {
            crate::raft::quorum::lemma_sorted_values(self.match_index.values());
            let n = self.match_index.values().len();
            if n > 0 {
                crate::raft::quorum::lemma_largest_reached_by(
                    self.match_index.values(),
                    (n - n / 2) as nat,
                );
            }
        }
        if match_indices.len() == 0 {
            return current_commit;
        }
        let majority_index = match_indices.len() / 2;
        let potential_commit = match_indices[majority_index];
        if potential_commit > current_commit {
            let t = log_term_at(potential_commit);
            match t {
                Some(term) => {
                    if term == current_term {
                        return potential_commit;
                    }
                },
                None => {},
            }
        }
        current_commit
    }
}

/// How election timeouts and heartbeats are timed, in milliseconds.
#[derive(Debug)]
pub struct ElectionConfig {
    pub min_timeout_ms: u64,
    pub max_timeout_ms: u64,
    pub heartbeat_interval_ms: u64,
}

impl Clone for ElectionConfig {
    fn clone(&self) -> (c: Self)
        ensures
            c == *self,
    {
        ElectionConfig {
            min_timeout_ms: self.min_timeout_ms,
            max_timeout_ms: self.max_timeout_ms,
            heartbeat_interval_ms: self.heartbeat_interval_ms,
        }
    }
}

impl Default for ElectionConfig {
    fn default() -> (c: Self)
        ensures
            c.min_timeout_ms == 150,
            c.max_timeout_ms == 300,
            c.heartbeat_interval_ms == 50,
    {
        ElectionConfig { min_timeout_ms: 150, max_timeout_ms: 300, heartbeat_interval_ms: 50 }
    }
}

impl ElectionConfig {
    /// The timeout range is not empty.
    pub open spec fn valid(&self) -> bool {
        self.min_timeout_ms < self.max_timeout_ms
    }

    /// The timeout drawn from the number `nanos`.
    pub open spec fn timeout_for(&self, nanos: u64) -> u64 {
        (self.min_timeout_ms + nanos % (self.max_timeout_ms - self.min_timeout_ms) as u64) as u64
    }

    /// The timeout, in milliseconds, that `nanos` selects within the range.
    pub fn timeout_ms_for(&self, nanos: u64) -> (ms: u64)
        requires
            self.valid(),
        ensures
            ms == self.timeout_for(nanos),
            self.min_timeout_ms <= ms < self.max_timeout_ms,
    {
        let range = self.max_timeout_ms - self.min_timeout_ms;
        self.min_timeout_ms + nanos % range
    }

    /// A timeout in milliseconds drawn from the clock's sub-second nanoseconds, within
    /// the range. Which one is drawn depends on the clock.
    pub fn random_timeout_ms(&self) -> (ms: u64)
        requires
            self.valid(),
        ensures
            self.min_timeout_ms <= ms < self.max_timeout_ms,
    {
        let now = system_now();
        let since = since_unix_epoch(&now);
        let nanos = subsec_nanos(&since);
        self.timeout_ms_for(nanos as u64)
    }

    /// A timeout drawn from the clock's sub-second nanoseconds, within the range: a
    /// whole number of milliseconds.
    pub fn random_timeout(&self) -> (d: Duration)
        requires
            self.valid(),
        ensures
            duration_nanos(d) % 1_000_000 == 0,
            self.min_timeout_ms * 1_000_000 <= duration_nanos(d) < self.max_timeout_ms * 1_000_000,
    {
        duration_from_millis(self.random_timeout_ms())
    }

    pub fn heartbeat_interval(&self) -> (d: Duration)
        ensures
            duration_nanos(d) == self.heartbeat_interval_ms * 1_000_000,
    {
        duration_from_millis(self.heartbeat_interval_ms)
    }
}

/// When the node last heard from a leader, and how long it waits before an election,
/// in whole milliseconds.
#[derive(Debug)]
pub struct ElectionTimer {
    pub last_reset: Instant,
    pub timeout_ms: u64,
    pub config: ElectionConfig,
}

impl Clone for ElectionTimer {
    fn clone(&self) -> (t: Self)
        ensures
            t == *self,
    {
        ElectionTimer {
            last_reset: self.last_reset,
            timeout_ms: self.timeout_ms,
            config: self.config.clone(),
        }
    }
}

impl ElectionTimer {
    /// The timeout is one drawn within the configured range.
    pub open spec fn drawn(&self) -> bool {
        self.config.min_timeout_ms <= self.timeout_ms < self.config.max_timeout_ms
    }

    /// The timeout in nanoseconds.
    pub open spec fn timeout_nanos(&self) -> int {
        self.timeout_ms * 1_000_000
    }

    /// A timer started now, with a freshly drawn timeout.
    pub fn new(config: ElectionConfig) -> (t: Self)
        requires
            config.valid(),
        ensures
            t.config == config,
            t.drawn(),
    {
        let timeout_ms = config.random_timeout_ms();
        ElectionTimer { last_reset: instant_now(), timeout_ms, config }
    }

    /// The timeout as a duration.
    pub fn timeout(&self) -> (d: Duration)
        ensures
            duration_nanos(d) == self.timeout_nanos(),
    {
        duration_from_millis(self.timeout_ms)
    }

    /// The nanoseconds passed since the last reset, as the clock reads them now.
    pub fn elapsed_nanos(&self) -> u128 {
        let elapsed = elapsed_since(&self.last_reset);
        duration_as_nanos(&elapsed)
    }

    /// Whether the timeout has passed once `elapsed_ns` nanoseconds have gone by since
    /// the last reset.
    pub fn expired_after(&self, elapsed_ns: u128) -> (b: bool)
        ensures
            b == (elapsed_ns >= self.timeout_nanos()),
    {
        elapsed_ns >= (self.timeout_ms as u128) * 1_000_000
    }

    /// The nanoseconds left before the timeout passes once `elapsed_ns` nanoseconds
    /// have gone by since the last reset; zero once it has passed.
    pub fn remaining_after(&self, elapsed_ns: u128) -> (r: u128)
        ensures
            r == (if elapsed_ns >= self.timeout_nanos() {
                0
            } else {
                self.timeout_nanos() - elapsed_ns
            }),
    {
        let timeout_ns = (self.timeout_ms as u128) * 1_000_000;
        if elapsed_ns >= timeout_ns {
            0
        } else {
            timeout_ns - elapsed_ns
        }
    }

    /// Whether the timeout has passed since the last reset: `expired_after` at the time
    /// the clock reads now.
    pub fn is_expired(&self) -> bool {
        self.expired_after(self.elapsed_nanos())
    }

    /// Restarts the timer now, with a freshly drawn timeout.
    pub fn reset(&mut self)
        requires
            old(self).config.valid(),
        ensures
            final(self).config == old(self).config,
            final(self).drawn(),
    {
        self.last_reset = instant_now();
        self.timeout_ms = self.config.random_timeout_ms();
    }

    /// The time left before the timeout passes, zero once it has: `remaining_after` at
    /// the time the clock reads now. It is never more than the timeout.
    pub fn remaining(&self) -> (d: Duration)
        ensures
            duration_nanos(d) <= self.timeout_nanos(),
    {
        let r = self.remaining_after(self.elapsed_nanos());
        let secs = (r / 1_000_000_000) as u64;
        let nanos = (r % 1_000_000_000) as u32;
        duration_new(secs, nanos)
    }
}

} // verus!
