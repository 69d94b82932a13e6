use vstd::prelude::*;

use crate::raft::log::{Command, LogEntry};
use crate::raft::message::{AppendEntriesRequest, RequestVoteRequest};
use crate::raft::node::{present_entries, RaftNode};
use crate::raft::state::{index_range, NodeState};
use crate::storage::engine::StorageEngine;

verus! {

/// The store after one committed command is applied to it.
pub open spec fn applied(store: Map<Seq<char>, Seq<char>>, cmd: Command) -> Map<Seq<char>, Seq<char>> {
    match cmd {
        Command::Put { key, value } => store.insert(key@, value@),
        Command::Delete { key } => store.remove(key@),
        Command::Noop => store,
    }
}

/// The store after the commands of `entries` are applied in order.
pub open spec fn applied_all(store: Map<Seq<char>, Seq<char>>, entries: Seq<LogEntry>) -> Map<
    Seq<char>,
    Seq<char>,
>
    decreases entries.len(),
{
    if entries.len() == 0 {
        store
    } else {
        applied(applied_all(store, entries.drop_last()), entries.last().command)
    }
}

/// Applies one committed command to the store.
pub fn apply_command(store: &mut StorageEngine, cmd: &Command)
    ensures
        final(store)@ == applied(old(store)@, *cmd),
{
    match cmd {
        Command::Put { key, value } => {
            let _ = store.set(key.clone(), value.clone());
        },
        Command::Delete { key } => {
            let _ = store.delete(key);
        },
        Command::Noop => {},
    }
}

/// Applies the commands of `entries` to the store, in order.
pub fn apply_all(store: &mut StorageEngine, entries: &Vec<LogEntry>)
    ensures
        final(store)@ == applied_all(old(store)@, entries@),
{
    let mut i: usize = 0;
    while i < entries.len()
        invariant
            i <= entries@.len(),
            store@ == applied_all(old(store)@, entries@.take(i as int)),
        decreases entries@.len() - i,
    {
        assert(entries@.take(i + 1).drop_last() =~= entries@.take(i as int));
        apply_command(store, &entries[i].command);
        i = i + 1;
    }
    assert(entries@.take(entries@.len() as int) =~= entries@);
}

/// The entries of a round that reach the store, given, for each entry, whether the
/// write-ahead log took it: a write goes only once the log holds it; a delete and a
/// no-op always go.
pub open spec fn durable_entries(entries: Seq<LogEntry>, logged: Seq<bool>) -> Seq<LogEntry>
    decreases entries.len(),
{
    if entries.len() == 0 {
        Seq::empty()
    } else {
        let rest = durable_entries(entries.drop_last(), logged);
        let i = entries.len() - 1;
        if entries[i].command is Put && !logged[i] {
            rest
        } else {
            rest.push(entries[i])
        }
    }
}

/// Applies the committed entries of a round to the store, given for each entry whether
/// the write-ahead log took it: a write whose logging failed is left out.
pub fn apply_committed(store: &mut StorageEngine, entries: &Vec<LogEntry>, logged: &Vec<bool>)
    requires
        logged@.len() == entries@.len(),
    ensures
        final(store)@ == applied_all(old(store)@, durable_entries(entries@, logged@)),
{
    let mut i: usize = 0;
    while i < entries.len()
        invariant
            i <= entries@.len(),
            logged@.len() == entries@.len(),
            store@ == applied_all(old(store)@, durable_entries(entries@.take(i as int), logged@)),
        decreases entries@.len() - i,
    {
        let ghost before = durable_entries(entries@.take(i as int), logged@);
        assert(entries@.take(i + 1).drop_last() =~= entries@.take(i as int));
        assert(entries@.take(i + 1)[i as int] == entries@[i as int]);
        let skip = match &entries[i].command {
            Command::Put { .. } => !logged[i],
            _ => false,
        };
        if !skip {
            apply_command(store, &entries[i].command);
            assert(durable_entries(entries@.take(i + 1), logged@) == before.push(entries@[i as int]));
            assert(before.push(entries@[i as int]).drop_last() =~= before);
        }
        i = i + 1;
    }
    assert(entries@.take(entries@.len() as int) =~= entries@);
}

/// What one round of the node's background loop asks to be sent and applied.
pub struct TickPlan {
    /// The vote request to send to every peer, when an election started.
    pub vote_request: Option<RequestVoteRequest>,
    /// The append requests to send, one per peer, when the leader's heartbeat is due.
    pub heartbeats: Vec<(String, AppendEntriesRequest)>,
    /// The committed entries to apply to the store, in log order.
    pub to_apply: Vec<LogEntry>,
}

/// One round of the node's background loop, given whether the election timer has
/// expired: an election starts when it has, on a node that does not lead; a leader
/// whose heartbeat is due prepares one append request per peer; every committed entry
/// not yet applied is taken for applying.
pub fn tick(raft: &mut RaftNode, expired: bool, heartbeat_due: bool) -> (plan: TickPlan)
    requires
        old(raft).wf(),
        old(raft).state != NodeState::Leader && expired ==> old(raft).persistent.current_term
            < u64::MAX,
        heartbeat_due && old(raft).state == NodeState::Leader ==> forall|i: int|
            0 <= i < old(raft).peers@.len() ==> old(raft).can_send_to(#[trigger] old(raft).peers@[i]@),
    ensures
        final(raft).wf(),
        old(raft).keeps_vote(*final(raft)),
        plan.vote_request is Some <==> (old(raft).state != NodeState::Leader && expired),
        plan.vote_request is Some ==> {
            &&& old(raft).state != NodeState::Leader
            &&& final(raft).state == NodeState::Candidate
            &&& final(raft).persistent.current_term == old(raft).persistent.current_term + 1
            &&& final(raft).persistent.voted_for == Some(old(raft).id)
            &&& final(raft).votes_received@ == Set::<Seq<char>>::empty().insert(old(raft).id@)
            &&& final(raft).leader_state is None
            &&& final(raft).current_leader is None
            &&& plan.vote_request == Some(
                RequestVoteRequest {
                    term: final(raft).persistent.current_term,
                    candidate_id: old(raft).id,
                    last_log_index: old(raft).log@.last_index,
                    last_log_term: old(raft).log@.last_term,
                },
            )
        },
        plan.vote_request is None ==> {
            &&& final(raft).state == old(raft).state
            &&& final(raft).persistent == old(raft).persistent
            &&& final(raft).leader_state == old(raft).leader_state
            &&& final(raft).current_leader == old(raft).current_leader
            &&& final(raft).votes_received == old(raft).votes_received
            &&& final(raft).election_timer == old(raft).election_timer
        },
        !(heartbeat_due && final(raft).state == NodeState::Leader && final(raft).leader_state is Some)
            ==> plan.heartbeats@.len() == 0,
        heartbeat_due && final(raft).state == NodeState::Leader && final(raft).leader_state is Some
            ==> {
            &&& plan.heartbeats@.len() == old(raft).peers@.len()
            &&& forall|i: int|
                0 <= i < plan.heartbeats@.len() ==> (#[trigger] plan.heartbeats@[i]).0
                    == old(raft).peers@[i] && old(raft).is_append_request_for(
                    old(raft).peers@[i]@,
                    plan.heartbeats@[i].1,
                )
        },
        plan.to_apply@ == present_entries(
            old(raft).log@,
            index_range(old(raft).volatile.last_applied, old(raft).volatile.commit_index),
        ),
        final(raft).volatile.last_applied == (if old(raft).volatile.last_applied < old(raft).volatile.commit_index {
            old(raft).volatile.commit_index
        } else {
            old(raft).volatile.last_applied
        }),
        final(raft).volatile.commit_index == old(raft).volatile.commit_index,
        final(raft).log == old(raft).log,
        final(raft).id == old(raft).id,
        final(raft).peers == old(raft).peers,
{
    let vote_request = if raft.election_due(expired) {
        raft.start_election();
        Some(raft.create_request_vote())
    } else {
        None
    };
    let heartbeats = if heartbeat_due && raft.is_leader() {
        raft.create_heartbeats()
    } else {
        Vec::new()
    };
    let to_apply = if raft.has_entries_to_apply() {
        raft.get_entries_to_apply()
    } else {
        proof {
            assert(index_range(raft.volatile.last_applied, raft.volatile.commit_index) =~= Seq::<
                u64,
            >::empty());
        }
        Vec::new()
    };
    TickPlan { vote_request, heartbeats, to_apply }
}

} // verus!
