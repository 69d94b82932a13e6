use vstd::prelude::*;

use crate::handler::{client_written_command, written_command};
use crate::protocol::Command as ProtocolCommand;
use crate::raft::log::{Command, LogEntry, LogView};
use crate::raft::message::{
    AppendEntriesRequest, AppendEntriesResponse, ClientCommand, ClientRequest, ClientResponse,
    RequestVoteRequest, RequestVoteResponse,
};
use crate::raft::node::{present_entries, RaftNode};
use crate::raft::ids::reaches;
use crate::raft::quorum::{count_at_least, lemma_count_push, lemma_largest_reached_by};
use crate::raft::state::{index_range, LeaderState, PersistentState};
use crate::storage::wal::{be_bytes, be_value, framed, records};

verus! {

// ---------------------------------------------------------------- the store

/// A read of a key gives back the value last written to it.
pub proof fn law_read_your_write(store: Map<Seq<char>, Seq<char>>, key: Seq<char>, value: Seq<char>)
    ensures
        store.insert(key, value).contains_key(key),
        store.insert(key, value)[key] == value,
{
}

/// A write to one key leaves every other key as it was.
pub proof fn law_write_keeps_other_keys(
    store: Map<Seq<char>, Seq<char>>,
    key: Seq<char>,
    value: Seq<char>,
    other: Seq<char>,
)
    requires
        other != key,
    ensures
        store.insert(key, value).contains_key(other) == store.contains_key(other),
        store.contains_key(other) ==> store.insert(key, value)[other] == store[other],
{
}

/// After a delete, a read of the key finds nothing, and other keys are untouched.
pub proof fn law_delete_then_read(store: Map<Seq<char>, Seq<char>>, key: Seq<char>, other: Seq<char>)
    ensures
        !store.remove(key).contains_key(key),
        other != key ==> store.remove(key).contains_key(other) == store.contains_key(other),
        other != key && store.contains_key(other) ==> store.remove(key)[other] == store[other],
{
}

// ---------------------------------------------------------------- client writes

/// A write that a client sends is logged as the command it names, with its own key and
/// value: `SET key value` as a put of that key and value, `DELETE key` as a delete of
/// that key, in the text protocol and in the cluster's own transport alike. The leader's
/// log then ends with that command at the next index.
pub proof fn law_writes_log_the_command_they_name(
    log: LogView,
    term: u64,
    key: String,
    value: String,
)
    requires
        aligned(log),
        log.last_index < u64::MAX,
    ensures
        written_command(ProtocolCommand::Put { key, value }) == (Command::Put { key, value }),
        written_command(ProtocolCommand::Delete { key }) == (Command::Delete { key }),
        client_written_command(ClientCommand::Put { key, value }) == (Command::Put { key, value }),
        client_written_command(ClientCommand::Delete { key }) == (Command::Delete { key }),
        ({
            let i = (log.last_index + 1) as u64;
            let after = log.pushed(
                LogEntry { term, index: i, command: written_command(ProtocolCommand::Put { key, value }) },
            );
            &&& after.last_index == i
            &&& after.entry_at(i) matches Some(e) && e.command == (Command::Put { key, value })
                && e.term == term
        }),
{
}

// ---------------------------------------------------------------- the log

/// A log whose entries sit at their own indices, one after another from index one,
/// and whose last index and term are those of its last entry.
pub open spec fn aligned(v: LogView) -> bool {
    &&& v.entries.len() == v.last_index
    &&& forall|i: int| 0 <= i < v.entries.len() ==> (#[trigger] v.entries[i]).index == i + 1
    &&& v.last_term == (if v.entries.len() == 0 {
        0
    } else {
        v.entries.last().term
    })
}

/// Entries numbered one after another, the first with index `first`.
pub open spec fn consecutive_from(es: Seq<LogEntry>, first: int) -> bool {
    forall|j: int| 0 <= j < es.len() ==> (#[trigger] es[j]).index == first + j
}

/// Appending at the next index keeps a log aligned and keeps every entry it held.
pub proof fn law_append_only_extends(v: LogView, e: LogEntry)
    requires
        aligned(v),
        e.index == v.last_index + 1,
    ensures
        aligned(v.pushed(e)),
        v.pushed(e).entry_at(e.index) == Some(e),
        forall|i: u64| 1 <= i <= v.last_index ==> v.pushed(e).entry_at(i) == v.entry_at(i),
{
}

/// In an aligned log, the term at the last index is the last term.
pub proof fn law_last_term_is_term_at_last_index(v: LogView)
    requires
        aligned(v),
    ensures
        v.term_at(v.last_index) == Some(v.last_term),
{
}

/// What a leader with an aligned log sends from `next` on is numbered one after
/// another from `next`, right after the entry it names as previous.
pub proof fn law_leader_sends_consecutive_entries(v: LogView, next: u64)
    requires
        aligned(v),
        1 <= next <= v.last_index + 1,
    ensures
        consecutive_from(v.entries_from(next), next as int),
        v.entries_from(next).len() == v.last_index + 1 - next,
{
    if next <= v.last_index {
        assert forall|j: int| 0 <= j < v.entries_from(next).len() implies (#[trigger] v.entries_from(
            next,
        )[j]).index == next + j by {
            assert(v.entries_from(next)[j] == v.entries[next - 1 + j]);
        }
    }
}

proof fn lemma_truncate_aligned(v: LogView, index: u64)
    requires
        aligned(v),
        index < v.last_index,
    ensures
        aligned(v.truncated_after(index)),
        v.truncated_after(index).last_index == index,
        forall|i: u64| 1 <= i <= index ==> v.truncated_after(index).entry_at(i) == v.entry_at(i),
{
}

/// Receiving entries that a leader numbered one after another from just past
/// `prev`, in a log that is aligned and reaches `prev`: the log stays aligned, reaches at
/// least the last index sent, holds each sent entry's term at that entry's index, and
/// keeps every entry up to `prev`.
pub proof fn law_received_entries_are_held(v: LogView, prev: u64, es: Seq<LogEntry>)
    requires
        aligned(v),
        prev <= v.last_index,
        consecutive_from(es, prev + 1),
        prev + es.len() <= u64::MAX,
    ensures
        aligned(v.receive_all(es)),
        v.receive_all(es).last_index >= prev + es.len(),
        forall|j: int|
            0 <= j < es.len() ==> v.receive_all(es).term_at((#[trigger] es[j]).index) == Some(
                es[j].term,
            ),
        forall|i: u64| 1 <= i <= prev ==> v.receive_all(es).entry_at(i) == v.entry_at(i),
    decreases es.len(),
{
    if es.len() > 0 {
        let init = es.drop_last();
        let e = es.last();
        assert(consecutive_from(init, prev + 1)) by {
            assert forall|j: int| 0 <= j < init.len() implies (#[trigger] init[j]).index == prev
                + 1 + j by {
                assert(init[j] == es[j]);
            }
        }
        law_received_entries_are_held(v, prev, init);
        let r = v.receive_all(init);
        assert(e == es[es.len() - 1]);
        assert(e.index == prev + es.len());
        match r.entry_at(e.index) {
            Some(existing) => {
                if existing.term != e.term {
                    lemma_truncate_aligned(r, (e.index - 1) as u64);
                }
            },
            None => {},
        }
        let f = v.receive_all(es);
        assert(f == r.receive(e));
        assert forall|j: int| 0 <= j < es.len() implies f.term_at((#[trigger] es[j]).index) == Some(
            es[j].term,
        ) by {
            if j < es.len() - 1 {
                assert(es[j] == init[j]);
                assert(r.term_at(init[j].index) == Some(init[j].term));
            }
        }
    }
}

/// Whether some entry of `es` lands on an index where `v` holds an entry of another term.
pub open spec fn has_conflict(v: LogView, es: Seq<LogEntry>) -> bool {
    exists|j: int|
        #![trigger es[j]]
        0 <= j < es.len() && (v.entry_at(es[j].index) matches Some(x) && x.term != es[j].term)
}

/// A conflicting entry is dropped together with everything after it: when a log that
/// holds the request's previous entry receives entries numbered one after another from
/// just past it, and one of them conflicts with what the log held, the log afterwards
/// ends exactly at the last entry received. Without a conflict, the log keeps whatever
/// it held past the received entries, and ends at the later of its old last index and
/// the last entry received.
pub proof fn law_conflict_drops_the_rest(v: LogView, prev: u64, prev_term: u64, es: Seq<LogEntry>)
    requires
        aligned(v),
        v.matches(prev, prev_term),
        consecutive_from(es, prev + 1),
    ensures
        has_conflict(v, es) ==> v.receive_all(es).last_index == prev + es.len(),
        has_conflict(v, es) ==> forall|i: u64|
            i > prev + es.len() ==> #[trigger] v.receive_all(es).entry_at(i) is None,
        !has_conflict(v, es) ==> v.receive_all(es).last_index == (if v.last_index >= prev
            + es.len() {
            v.last_index as int
        } else {
            prev + es.len()
        }),
        !has_conflict(v, es) ==> forall|i: u64|
            i > prev + es.len() ==> #[trigger] v.receive_all(es).entry_at(i) == v.entry_at(i),
    decreases es.len(),
{
    if prev > 0 {
        assert(v.term_at(prev) is Some);
    }
    if es.len() == 0 {
        assert(!has_conflict(v, es));
    } else {
        let init = es.drop_last();
        let e = es.last();
        assert(e == es[es.len() - 1]);
        assert(e.index == prev + es.len());
        assert(consecutive_from(init, prev + 1)) by {
            assert forall|j: int| 0 <= j < init.len() implies (#[trigger] init[j]).index == prev
                + 1 + j by {
                assert(init[j] == es[j]);
            }
        }
        law_conflict_drops_the_rest(v, prev, prev_term, init);
        law_received_entries_are_held(v, prev, init);
        let r0 = v.receive_all(init);
        let r = v.receive_all(es);
        assert(r == r0.receive(e));
        if has_conflict(v, init) {
            let j = choose|j: int|
                #![trigger init[j]]
                0 <= j < init.len() && (v.entry_at(init[j].index) matches Some(x) && x.term
                    != init[j].term);
            assert(init[j] == es[j]);
            assert(has_conflict(v, es));
            assert(r0.entry_at(e.index) is None);
        } else {
            assert(r0.entry_at(e.index) == v.entry_at(e.index));
            let last_conflicts = v.entry_at(e.index) matches Some(x) && x.term != e.term;
            if last_conflicts {
                assert(has_conflict(v, es));
            } else {
                assert(!has_conflict(v, es)) by {
                    if has_conflict(v, es) {
                        let j = choose|j: int|
                            #![trigger es[j]]
                            0 <= j < es.len() && (v.entry_at(es[j].index) matches Some(x) && x.term
                                != es[j].term);
                        if j < es.len() - 1 {
                            assert(init[j] == es[j]);
                        }
                    }
                }
                match v.entry_at(e.index) {
                    Some(x) => {},
                    None => {
                        assert(r0.entries.len() == r0.last_index);
                    },
                }
            }
        }
    }
}

/// Receiving one entry at an index where the log holds an entry of another term drops
/// that entry and everything after it: the log then ends at the received entry.
pub proof fn law_conflicting_entry_ends_the_log(v: LogView, e: LogEntry)
    requires
        aligned(v),
        v.entry_at(e.index) matches Some(x) && x.term != e.term,
    ensures
        v.receive(e).last_index == e.index,
        v.receive(e).last_term == e.term,
        v.receive(e).entries.len() == e.index,
        v.receive(e).entry_at(e.index) == Some(e),
        forall|i: u64| 1 <= i < e.index ==> #[trigger] v.receive(e).entry_at(i) == v.entry_at(i),
{
}

/// Replication makes a follower agree with its leader: when a leader with an aligned
/// log, whose next index for a peer lies within that log or just past it, sends the peer
/// its request, and the follower's aligned log holds the request's previous entry, then
/// after receiving the request the follower holds, at every index from the previous one
/// up to the leader's last, the leader's term.
pub proof fn law_follower_agrees_with_leader(
    leader: RaftNode,
    peer: Seq<char>,
    req: crate::raft::message::AppendEntriesRequest,
    follower: LogView,
)
    requires
        aligned(leader.log@),
        leader.leader_state is Some,
        1 <= leader.next_index_for(peer) <= leader.log@.last_index + 1,
        leader.is_append_request_for(peer, req),
        aligned(follower),
        follower.matches(req.prev_log_index, req.prev_log_term),
    ensures
        forall|i: u64|
            req.prev_log_index <= i <= leader.log@.last_index ==> #[trigger] follower.receive_all(
                req.entries@,
            ).term_at(i) == leader.log@.term_at(i),
{
    let next = leader.next_index_for(peer);
    let prev = req.prev_log_index;
    let v = leader.log@;
    law_leader_sends_consecutive_entries(v, next);
    assert(prev == next - 1);
    if prev > 0 {
        assert(follower.term_at(prev) == Some(req.prev_log_term));
    }
    law_received_entries_are_held(follower, prev, req.entries@);
    let f = follower.receive_all(req.entries@);
    assert forall|i: u64| prev <= i <= v.last_index implies #[trigger] f.term_at(i) == v.term_at(i) by {
        if i == prev {
            if prev > 0 {
                assert(f.entry_at(prev) == follower.entry_at(prev));
            }
        } else {
            let j = i - next;
            assert(req.entries@[j].index == i);
            assert(req.entries@[j] == v.entries[i - 1]);
        }
    }
}

/// The first `n` entries of an aligned log `v`, as a log of their own.
pub open spec fn first_entries(v: LogView, n: int) -> LogView {
    LogView {
        entries: v.entries.take(n),
        last_index: n as u64,
        last_term: if n == 0 {
            0
        } else {
            v.entries[n - 1].term
        },
    }
}

proof fn lemma_catch_up(v: LogView, f: LogView, k: int, m: int)
    requires
        aligned(v),
        aligned(f),
        f.entries.len() <= v.entries.len(),
        f.entries == v.entries.take(f.entries.len() as int),
        1 <= k <= m + 1,
        m <= v.entries.len(),
        f.entries.len() >= k - 1,
    ensures
        f.receive_all(v.entries.subrange(k - 1, m)) == first_entries(
            v,
            if f.entries.len() >= m {
                f.entries.len() as int
            } else {
                m
            },
        ),
    decreases m - k + 1,
{
    let es = v.entries.subrange(k - 1, m);
    if m == k - 1 {
        assert(es =~= Seq::<LogEntry>::empty());
        assert(f.entries =~= first_entries(v, f.entries.len() as int).entries);
    } else {
        lemma_catch_up(v, f, k, m - 1);
        assert(es.drop_last() =~= v.entries.subrange(k - 1, m - 1));
        assert(es.last() == v.entries[m - 1]);
        let n = if f.entries.len() >= m - 1 {
            f.entries.len() as int
        } else {
            m - 1
        };
        let p = first_entries(v, n);
        if n >= m {
            assert(p.entry_at(m as u64) == Some(v.entries[m - 1]));
        } else {
            assert(p.entry_at(m as u64) is None);
            assert(p.pushed(v.entries[m - 1]).entries =~= first_entries(v, m).entries);
        }
    }
}

/// A node's own operations keep its log aligned: taking the lead appends the no-op at
/// the next index, and a leader appends each client write at the next index.
pub proof fn law_leader_appends_keep_log_aligned(
    n: RaftNode,
    promoted: RaftNode,
    req: ClientRequest,
    served: RaftNode,
    resp: ClientResponse,
)
    requires
        aligned(n.log@),
        n.log@.last_index < u64::MAX,
    ensures
        promoted.promoted_from(n) ==> aligned(promoted.log@),
        n.after_client_request(served, req, resp) ==> aligned(served.log@),
{
    let e = LogEntry {
        term: n.term(),
        index: (n.log@.last_index + 1) as u64,
        command: Command::Noop,
    };
    law_append_only_extends(n.log@, e);
    match req.command {
        ClientCommand::Put { key, value } => {
            law_append_only_extends(
                n.log@,
                LogEntry {
                    term: n.term(),
                    index: (n.log@.last_index + 1) as u64,
                    command: Command::Put { key, value },
                },
            );
        },
        ClientCommand::Delete { key } => {
            law_append_only_extends(
                n.log@,
                LogEntry {
                    term: n.term(),
                    index: (n.log@.last_index + 1) as u64,
                    command: Command::Delete { key },
                },
            );
        },
        _ => {},
    }
}

/// Taking an append request whose entries a leader numbered one after another from just
/// past the request's previous index keeps a follower's log aligned, and so does every
/// answer to one of its own requests.
pub proof fn law_received_requests_keep_log_aligned(
    n: RaftNode,
    req: AppendEntriesRequest,
    next: RaftNode,
    resp: AppendEntriesResponse,
)
    requires
        aligned(n.log@),
        consecutive_from(req.entries@, req.prev_log_index + 1),
        n.after_append_request(next, req, resp),
    ensures
        aligned(next.log@),
{
    let v = n.log@;
    let prev = req.prev_log_index;
    let es = req.entries@;
    if req.term >= n.term() && v.matches(prev, req.prev_log_term) {
        if es.len() > 0 {
            assert(es[es.len() - 1].index == prev + es.len());
        }
        law_received_entries_are_held(v, prev, es);
    }
}

/// Replication brings a follower level with its leader: when a leader with an aligned
/// log sends a peer its request, and the peer's aligned log is a first part of the
/// leader's that reaches at least the entry just before the peer's next index, the peer
/// accepts the request and afterwards holds exactly the leader's log, reports the
/// leader's last index as its match, and knows the sender as its leader.
pub proof fn law_follower_catches_up(
    leader: RaftNode,
    peer: Seq<char>,
    req: AppendEntriesRequest,
    follower: RaftNode,
    after: RaftNode,
    resp: AppendEntriesResponse,
)
    requires
        aligned(leader.log@),
        leader.leader_state is Some,
        1 <= leader.next_index_for(peer) <= leader.log@.last_index + 1,
        leader.is_append_request_for(peer, req),
        aligned(follower.log@),
        follower.log@.entries.len() <= leader.log@.entries.len(),
        follower.log@.entries == leader.log@.entries.take(follower.log@.entries.len() as int),
        follower.log@.last_index + 1 >= leader.next_index_for(peer),
        follower.term() <= leader.term(),
        follower.after_append_request(after, req, resp),
    ensures
        resp.success,
        resp.match_index == leader.log@.last_index,
        after.log@ == leader.log@,
        after.current_leader == Some(leader.id),
{
    let v = leader.log@;
    let f = follower.log@;
    let next = leader.next_index_for(peer);
    let prev = req.prev_log_index;
    assert(prev == next - 1);
    if prev > 0 {
        assert(f.entries[prev - 1] == v.entries[prev - 1]);
        assert(f.term_at(prev) == Some(req.prev_log_term));
    }
    assert(f.matches(prev, req.prev_log_term));
    lemma_catch_up(v, f, next as int, v.entries.len() as int);
    if next <= v.last_index {
        assert(req.entries@ == v.entries.subrange(next - 1, v.entries.len() as int));
    } else {
        assert(req.entries@ =~= v.entries.subrange(next - 1, v.entries.len() as int));
    }
    assert(first_entries(v, v.entries.len() as int).entries =~= v.entries);
    assert(f.receive_all(req.entries@) == v);
}

proof fn lemma_receive_held_entries(r: LogView, es: Seq<LogEntry>)
    requires
        forall|j: int|
            0 <= j < es.len() ==> (#[trigger] es[j]).index >= 1 && r.term_at(es[j].index)
                == Some(es[j].term),
    ensures
        r.receive_all(es) == r,
    decreases es.len(),
{
    if es.len() > 0 {
        lemma_receive_held_entries(r, es.drop_last());
        assert(es.last() == es[es.len() - 1]);
    }
}

/// Receiving the same entries a second time changes nothing: a log that accepted a
/// request still holds the request's previous entry, and receiving its entries again
/// leaves it as it is.
pub proof fn law_receive_twice_same_as_once(v: LogView, prev: u64, prev_term: u64, es: Seq<LogEntry>)
    requires
        aligned(v),
        consecutive_from(es, prev + 1),
    ensures
        v.matches(prev, prev_term) ==> v.receive_all(es).matches(prev, prev_term),
        v.matches(prev, prev_term) ==> v.receive_all(es).receive_all(es) == v.receive_all(es),
{
    if v.matches(prev, prev_term) {
        if es.len() > 0 {
            assert(es[es.len() - 1].index == prev + es.len());
        }
        law_received_entries_are_held(v, prev, es);
        let r = v.receive_all(es);
        if prev > 0 {
            assert(r.entry_at(prev) == v.entry_at(prev));
        }
        assert forall|j: int| 0 <= j < es.len() implies (#[trigger] es[j]).index >= 1 && r.term_at(
            es[j].index,
        ) == Some(es[j].term) by {
            assert(es[j].index == prev + 1 + j);
        }
        lemma_receive_held_entries(r, es);
    }
}

/// A follower that takes the same append request twice ends as after taking it once,
/// and answers both times alike.
pub proof fn law_append_request_twice(
    n: RaftNode,
    req: AppendEntriesRequest,
    once: RaftNode,
    r1: AppendEntriesResponse,
    twice: RaftNode,
    r2: AppendEntriesResponse,
)
    requires
        aligned(n.log@),
        consecutive_from(req.entries@, req.prev_log_index + 1),
        n.after_append_request(once, req, r1),
        once.after_append_request(twice, req, r2),
    ensures
        r2 == r1,
        twice.log@ == once.log@,
        twice.persistent == once.persistent,
        twice.volatile == once.volatile,
        twice.current_leader == once.current_leader,
{
    law_receive_twice_same_as_once(n.log@, req.prev_log_index, req.prev_log_term, req.entries@);
}

// ---------------------------------------------------------------- elections

/// A majority of the cluster is more than half of it, so two majorities share a node.
pub proof fn law_quorums_overlap(n: RaftNode)
    ensures
        2 * n.quorum() > n.peers@.len() + 1,
        n.quorum() <= n.peers@.len() + 1,
{
}

/// Two groups of voters that each reach a quorum of the cluster share a member, so
/// two candidates cannot both win the votes of one term when each node votes once per
/// term.
pub proof fn law_quorums_share_a_voter(
    n: RaftNode,
    members: Set<Seq<char>>,
    a: Set<Seq<char>>,
    b: Set<Seq<char>>,
)
    requires
        members.finite(),
        members.len() == n.peers@.len() + 1,
        a.subset_of(members),
        b.subset_of(members),
        a.len() >= n.quorum(),
        b.len() >= n.quorum(),
    ensures
        exists|x: Seq<char>| a.contains(x) && b.contains(x),
{
    vstd::set_lib::lemma_len_subset(a, members);
    vstd::set_lib::lemma_len_subset(b, members);
    vstd::set_lib::lemma_len_subset(a + b, members);
    vstd::set_lib::lemma_set_intersect_union_lens(a, b);
    let both = a.intersect(b);
    assert(both.len() > 0);
    if both =~= Set::<Seq<char>>::empty() {
        assert(both.len() == 0);
    }
    let x = both.choose();
    assert(both.contains(x));
}

/// Once a node has voted for one candidate in a term, it votes for no other candidate
/// in that term.
pub proof fn law_one_vote_per_term(n: RaftNode, other: RequestVoteRequest)
    requires
        n.persistent.voted_for is Some,
        other.term == n.persistent.current_term,
        other.candidate_id@ != n.persistent.voted_for.unwrap()@,
    ensures
        !n.grants_vote(other),
{
}

/// Keeping a vote chains: what keeps the vote of a state that kept the vote of an
/// earlier one keeps the earlier one's vote too. Every method of a node keeps its vote.
pub proof fn law_keeps_vote_chains(a: RaftNode, b: RaftNode, c: RaftNode)
    requires
        a.keeps_vote(b),
        b.keeps_vote(c),
    ensures
        a.keeps_vote(c),
{
}

/// A node grants at most one candidate per term: after it granted a vote for `q1`,
/// every state that its methods lead to (each keeps the vote) refuses a request of the
/// same term from any other candidate.
pub proof fn law_one_grant_per_term(
    n: RaftNode,
    q1: RequestVoteRequest,
    granted: RaftNode,
    r1: RequestVoteResponse,
    later: RaftNode,
    q2: RequestVoteRequest,
    after: RaftNode,
    r2: RequestVoteResponse,
)
    requires
        n.after_vote_request(granted, q1, r1),
        r1.vote_granted,
        granted.keeps_vote(later),
        later.after_vote_request(after, q2, r2),
        q2.term == q1.term,
        q2.candidate_id@ != q1.candidate_id@,
    ensures
        !r2.vote_granted,
{
}

/// A candidate's log is at least as up to date as a voter's when its last term is later,
/// or, with the same last term, when it is at least as long: a candidate with the same
/// last term and a shorter log is never found up to date, nor one with an earlier last
/// term.
pub proof fn law_up_to_date_compares_terms_then_lengths(v: LogView, t: u64, i: u64)
    ensures
        t == v.last_term ==> (v.is_up_to_date(t, i) <==> i >= v.last_index),
        t != v.last_term ==> (v.is_up_to_date(t, i) <==> t > v.last_term),
{
}

/// A node refuses its vote to a candidate whose log is behind its own: with the same
/// last term and a smaller last index, or with an earlier last term.
pub proof fn law_no_vote_for_a_shorter_log(n: RaftNode, req: RequestVoteRequest)
    requires
        req.last_log_term < n.log@.last_term || (req.last_log_term == n.log@.last_term
            && req.last_log_index < n.log@.last_index),
    ensures
        !n.grants_vote(req),
{
    law_up_to_date_compares_terms_then_lengths(n.log@, req.last_log_term, req.last_log_index);
}

/// A node never grants a vote for a term older than its own.
pub proof fn law_no_vote_for_older_term(n: RaftNode, req: RequestVoteRequest)
    requires
        req.term < n.persistent.current_term,
    ensures
        !n.grants_vote(req),
{
}

/// Moving to a term never lowers a node's term.
pub proof fn law_terms_never_decrease(p: PersistentState, term: u64)
    ensures
        p.with_term(term).current_term >= p.current_term,
        p.with_term(term).current_term >= term,
{
}

// ---------------------------------------------------------------- commitment

/// The commit candidate of a leader is well defined and reached by a majority: it is
/// one of the progress values (the leader's last index included), at least `quorum()`
/// of them reach it, and no larger index is reached by that many.
pub proof fn law_commit_candidate_has_majority(n: RaftNode)
    requires
        n.leader_state is Some,
        n.progress_covers_quorum(),
    ensures
        n.progress_values().contains(n.commit_candidate()),
        count_at_least(n.progress_values(), n.commit_candidate()) >= n.quorum(),
        forall|y: u64|
            #[trigger] count_at_least(n.progress_values(), y) >= n.quorum() ==> y
                <= n.commit_candidate(),
{
    lemma_largest_reached_by(n.progress_values(), n.quorum());
}

/// How many members of the cluster, as a leader sees them, hold index `x`: the peers
/// whose match index reaches it, and the leader itself when its last log index does.
pub open spec fn holders(n: RaftNode, x: u64) -> nat {
    let m = n.leader_state.unwrap().match_index@;
    m.dom().filter(reaches(m, x)).len() + if n.log@.last_index >= x {
        1nat
    } else {
        0nat
    }
}

/// The commit candidate in terms of the peers: a majority of the cluster holds it, no
/// larger index is held by a majority, and it is the leader's last index or some peer's
/// match index.
pub proof fn law_commit_candidate_over_peers(n: RaftNode)
    requires
        n.wf(),
        n.leader_state is Some,
        n.progress_covers_quorum(),
    ensures
        holders(n, n.commit_candidate()) >= n.quorum(),
        forall|y: u64| #[trigger] holders(n, y) >= n.quorum() ==> y <= n.commit_candidate(),
        n.commit_candidate() == n.log@.last_index || exists|p: Seq<char>|
            n.leader_state.unwrap().match_index@.contains_key(p)
                && n.leader_state.unwrap().match_index@[p] == n.commit_candidate(),
{
    let ls = n.leader_state.unwrap();
    let values = ls.match_index.values();
    let last = n.log@.last_index;
    let c = n.commit_candidate();
    law_commit_candidate_has_majority(n);
    ls.match_index.lemma_values_match_view();
    ls.match_index.lemma_count_values(c);
    lemma_count_push(values, last, c);
    assert forall|y: u64| #[trigger] holders(n, y) >= n.quorum() implies y <= c by {
        ls.match_index.lemma_count_values(y);
        lemma_count_push(values, last, y);
        assert(count_at_least(n.progress_values(), y) >= n.quorum());
    }
    if c != last {
        assert(n.progress_values().contains(c));
        let i = n.progress_values().index_of(c);
        assert(i < values.len());
        assert(values[i] == c);
        let p = ls.match_index.keys()[i];
        assert(ls.match_index@.contains_key(p) && ls.match_index@[p] == c);
    }
}

/// The median of a leader's match indices in terms of the peers: at least half of them,
/// rounded up, reach it, no larger index is reached by that many, and it is some peer's
/// match index.
pub proof fn law_median_match_over_peers(ls: LeaderState)
    requires
        ls.wf(),
        ls.match_index@.len() > 0,
    ensures
        ({
            let m = ls.match_index@;
            let k = (m.len() - m.len() / 2) as nat;
            &&& m.dom().filter(reaches(m, ls.median_match())).len() >= k
            &&& forall|y: u64| #[trigger] m.dom().filter(reaches(m, y)).len() >= k ==> y
                <= ls.median_match()
            &&& exists|p: Seq<char>| m.contains_key(p) && m[p] == ls.median_match()
        }),
{
    let m = ls.match_index@;
    let values = ls.match_index.values();
    ls.match_index.lemma_values_match_view();
    let k = (m.len() - m.len() / 2) as nat;
    let med = ls.median_match();
    lemma_largest_reached_by(values, k);
    ls.match_index.lemma_count_values(med);
    assert forall|y: u64| #[trigger] m.dom().filter(reaches(m, y)).len() >= k implies y <= med by {
        ls.match_index.lemma_count_values(y);
        assert(count_at_least(values, y) >= k);
    }
    assert(values.contains(med));
    let i = values.index_of(med);
    let p = ls.match_index.keys()[i];
    assert(m.contains_key(p) && m[p] == med);
}

/// A leader commits the largest index that a majority of the cluster holds, as soon as
/// that index is past its commit index and holds an entry of its own term, whatever its
/// own last index: the commit index then becomes exactly that index. Otherwise it stays.
pub proof fn law_leader_commits_majority_index(n: RaftNode, x: u64)
    requires
        n.wf(),
        n.leader_state is Some,
        n.progress_covers_quorum(),
        holders(n, x) >= n.quorum(),
        forall|y: u64| y > x ==> #[trigger] holders(n, y) < n.quorum(),
    ensures
        x > n.volatile.commit_index && n.log@.term_at(x) == Some(n.persistent.current_term)
            ==> n.advanced_commit() == x,
        !(x > n.volatile.commit_index && n.log@.term_at(x) == Some(n.persistent.current_term))
            ==> n.advanced_commit() == n.volatile.commit_index,
{
    law_commit_candidate_over_peers(n);
    let c = n.commit_candidate();
    assert(x <= c);
    if x < c {
        assert(holders(n, c) < n.quorum());
    }
    assert(c == x);
}

/// A leader's commit index never goes back, and moves only to an entry of its own term.
pub proof fn law_leader_commit_advances_in_term(n: RaftNode)
    ensures
        n.advanced_commit() >= n.volatile.commit_index,
        n.advanced_commit() != n.volatile.commit_index ==> n.log@.term_at(n.advanced_commit())
            == Some(n.persistent.current_term),
{
}

/// What a round of applying hands out, in an aligned log that reaches the commit
/// index, is exactly the stretch of entries after the last applied one up to and
/// including the committed one, in log order.
pub proof fn law_round_applies_committed_entries(log: LogView, last_applied: u64, commit_index: u64)
    requires
        aligned(log),
        commit_index <= log.last_index,
    ensures
        present_entries(log, index_range(last_applied, commit_index)) == (if last_applied
            < commit_index {
            log.entries.subrange(last_applied as int, commit_index as int)
        } else {
            Seq::<LogEntry>::empty()
        }),
    decreases commit_index,
{
    if last_applied < commit_index {
        let c = (commit_index - 1) as u64;
        law_round_applies_committed_entries(log, last_applied, c);
        let r = index_range(last_applied, commit_index);
        assert(r.drop_last() =~= index_range(last_applied, c));
        assert(r.last() == commit_index);
        assert(log.entry_at(commit_index) == Some(log.entries[c as int]));
        assert(log.entries.subrange(last_applied as int, commit_index as int) =~= (if last_applied
            < c {
            log.entries.subrange(last_applied as int, c as int)
        } else {
            Seq::<LogEntry>::empty()
        }).push(log.entries[c as int]));
    } else {
        assert(index_range(last_applied, commit_index) =~= Seq::<u64>::empty());
    }
}

/// Applying the committed entries a second time finds nothing new.
pub proof fn law_apply_once(last_applied: u64, commit_index: u64)
    ensures
        index_range(
            if last_applied < commit_index {
                commit_index
            } else {
                last_applied
            },
            commit_index,
        ) == Seq::<u64>::empty(),
{
}

/// Successive rounds of applying hand out the committed indices one after another:
/// what one round applies up to `b` and the next up to `c` is, together, what a single
/// round up to `c` would have applied.
pub proof fn law_apply_rounds_chain(a: u64, b: u64, c: u64)
    requires
        a <= b <= c,
    ensures
        index_range(a, b) + index_range(b, c) == index_range(a, c),
{
    assert(index_range(a, b) + index_range(b, c) =~= index_range(a, c));
}

/// The entries a node hands out for two stretches of indices, one after the other, are
/// those it hands out for both stretches at once.
pub proof fn law_present_entries_concat(log: LogView, xs: Seq<u64>, ys: Seq<u64>)
    ensures
        present_entries(log, xs + ys) == present_entries(log, xs) + present_entries(log, ys),
    decreases ys.len(),
{
    if ys.len() == 0 {
        assert(xs + ys =~= xs);
        assert(present_entries(log, xs) + present_entries(log, ys) =~= present_entries(log, xs));
    } else {
        law_present_entries_concat(log, xs, ys.drop_last());
        assert((xs + ys).drop_last() =~= xs + ys.drop_last());
        assert((xs + ys).last() == ys.last());
        match log.entry_at(ys.last()) {
            Some(e) => {
                assert(present_entries(log, xs) + present_entries(log, ys.drop_last()).push(e) =~= (
                present_entries(log, xs) + present_entries(log, ys.drop_last())).push(e));
            },
            None => {},
        }
    }
}

// ---------------------------------------------------------------- the write-ahead log

/// The length prefix reads back the length it was written from.
pub proof fn law_length_prefix_round_trip(n: u32)
    ensures
        be_value(be_bytes(n)) == n,
{
    let b = be_bytes(n);
    assert(b[0] == n / 16777216);
    assert(b[1] == (n / 65536) % 256);
    assert(b[2] == (n / 256) % 256);
    assert(b[3] == n % 256);
    assert(n == (n / 16777216) * 16777216 + ((n / 65536) % 256) * 65536 + ((n / 256) % 256) * 256
        + n % 256) by (nonlinear_arith);
}

/// The bytes of several records, each framed, one after another.
pub open spec fn framed_all(ds: Seq<Seq<u8>>) -> Seq<u8>
    decreases ds.len(),
{
    if ds.len() == 0 {
        Seq::empty()
    } else {
        framed(ds[0]) + framed_all(ds.drop_first())
    }
}

proof fn lemma_records_after_frame(d: Seq<u8>, tail: Seq<u8>)
    requires
        d.len() < 4294967296,
    ensures
        records(framed(d) + tail) == crate::storage::wal::prepend(seq![d], records(tail)),
{
    let b = framed(d) + tail;
    law_length_prefix_round_trip(d.len() as u32);
    assert(b.subrange(0, 4) =~= be_bytes(d.len() as u32));
    assert(b.subrange(4, 4 + d.len() as int) =~= d);
    assert(b.subrange(4 + d.len() as int, b.len() as int) =~= tail);
}

/// Reading back a log made of framed records gives back exactly those records, as long
/// as each record's length fits the four-byte prefix.
pub proof fn law_log_round_trip(ds: Seq<Seq<u8>>)
    requires
        forall|i: int| 0 <= i < ds.len() ==> (#[trigger] ds[i]).len() < 4294967296,
    ensures
        records(framed_all(ds)) == Some(ds),
    decreases ds.len(),
{
    if ds.len() == 0 {
        assert(ds =~= Seq::<Seq<u8>>::empty());
    } else {
        let d = ds[0];
        let rest = ds.drop_first();
        assert forall|i: int| 0 <= i < rest.len() implies (#[trigger] rest[i]).len() < 4294967296 by {
            assert(rest[i] == ds[i + 1]);
        }
        law_log_round_trip(rest);
        lemma_records_after_frame(d, framed_all(rest));
        assert(seq![d] + rest =~= ds);
    }
}

} // verus!
