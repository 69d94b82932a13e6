use vstd::prelude::*;

use crate::raft::message::{
    AppendEntriesResponse, ClientResponse, RaftMessage, RequestVoteResponse,
};
use crate::raft::log::{Command, LogEntry};
use crate::raft::node::{present_entries, RaftNode};
use crate::raft::state::index_range;
use crate::raft::state::NodeState;

verus! {

/// What a node sends back for a Raft message it received.
#[derive(Debug)]
pub enum RaftReply {
    /// The answer to a vote request.
    Vote(RequestVoteResponse),
    /// The answer to an append request.
    Append(AppendEntriesResponse),
    /// The answer to a client request.
    Client(ClientResponse),
    /// An answer was taken into account; the node acknowledges it.
    Acknowledged,
    /// A message that a node does not accept.
    Invalid,
}

/// Whether a node can take `message` without an index overflowing.
pub open spec fn can_take(raft: RaftNode, message: RaftMessage) -> bool {
    match message {
        RaftMessage::RequestVoteResponse(r) => raft.wins_with(r) ==> raft.log@.last_index
            < u64::MAX,
        RaftMessage::AppendEntriesResponse(r) => r.term <= raft.term() && raft.state
            == NodeState::Leader && raft.leader_state is Some && r.success ==> {
            &&& raft.leader_state.unwrap().next_index@.contains_key(r.follower_id@)
                ==> r.match_index < u64::MAX
            &&& raft.progress_covers_quorum()
        },
        RaftMessage::ClientRequest(r) => raft.state == NodeState::Leader && !(
        r.command is Get) ==> raft.log@.last_index < u64::MAX,
        _ => true,
    }
}

/// Hands a received Raft message to the node's handler for its kind: requests are
/// answered with the handler's response, answers to this node's own requests are taken
/// into account and acknowledged, and a client response, which no node expects, is
/// refused without touching the node. In each case the node changes exactly as the
/// handler for that kind says.
pub fn handle_raft_message(raft: &mut RaftNode, message: RaftMessage) -> (reply: RaftReply)
    requires
        old(raft).wf(),
        can_take(*old(raft), message),
    ensures
        final(raft).wf(),
        old(raft).keeps_vote(*final(raft)),
        final(raft).persistent.current_term >= old(raft).persistent.current_term,
        match message {
            RaftMessage::RequestVote(req) => reply matches RaftReply::Vote(resp)
                && old(raft).after_vote_request(*final(raft), req, resp),
            RaftMessage::RequestVoteResponse(r) => reply is Acknowledged
                && old(raft).after_vote_response(*final(raft), r),
            RaftMessage::AppendEntries(req) => reply matches RaftReply::Append(resp)
                && old(raft).after_append_request(*final(raft), req, resp),
            RaftMessage::AppendEntriesResponse(r) => reply is Acknowledged
                && old(raft).after_append_response(*final(raft), r),
            RaftMessage::ClientRequest(req) => reply matches RaftReply::Client(resp)
                && old(raft).after_client_request(*final(raft), req, resp),
            RaftMessage::ClientResponse(_) => reply is Invalid && *final(raft) == *old(raft),
        },
{
    match message {
        RaftMessage::RequestVote(req) => RaftReply::Vote(raft.handle_request_vote(&req)),
        RaftMessage::RequestVoteResponse(resp) => {
            raft.handle_request_vote_response(&resp);
            RaftReply::Acknowledged
        },
        RaftMessage::AppendEntries(req) => RaftReply::Append(raft.handle_append_entries(&req)),
        RaftMessage::AppendEntriesResponse(resp) => {
            raft.handle_append_entries_response(&resp);
            RaftReply::Acknowledged
        },
        RaftMessage::ClientRequest(req) => RaftReply::Client(raft.handle_client_request(&req)),
        RaftMessage::ClientResponse(_) => RaftReply::Invalid,
    }
}

/// The commands of `entries`, in order.
pub open spec fn commands_of(entries: Seq<LogEntry>) -> Seq<Command> {
    entries.map_values(|e: LogEntry| e.command)
}

/// Marks every committed entry as applied and hands the command of each to `apply_fn`,
/// in log order. The ghost result is the sequence of commands handed over, one per call
/// of `apply_fn`: exactly the commands of the entries from just past the last applied
/// index up to the commit index, in log order.
pub fn apply_committed_entries<F: Fn(Command)>(raft: &mut RaftNode, apply_fn: F) -> (passed: Ghost<
    Seq<Command>,
>)
    requires
        forall|c: Command| apply_fn.requires((c,)),
    ensures
        passed@ == commands_of(
            present_entries(
                old(raft).log@,
                index_range(old(raft).volatile.last_applied, old(raft).volatile.commit_index),
            ),
        ),
        final(raft).volatile.commit_index == old(raft).volatile.commit_index,
        final(raft).volatile.last_applied == (if old(raft).volatile.last_applied
            < old(raft).volatile.commit_index {
            old(raft).volatile.commit_index
        } else {
            old(raft).volatile.last_applied
        }),
        *final(raft) == (RaftNode { volatile: final(raft).volatile, ..*old(raft) }),
{
    let entries = raft.get_entries_to_apply();
    let ghost mut passed: Seq<Command> = Seq::empty();
    let mut i: usize = 0;
    while i < entries.len()
        invariant
            i <= entries@.len(),
            forall|c: Command| apply_fn.requires((c,)),
            passed == commands_of(entries@.take(i as int)),
        decreases entries@.len() - i,
    {
        let c = entries[i].command.clone();
        apply_fn(c);
        proof {
            passed = passed.push(c);
            assert(commands_of(entries@.take(i + 1)) =~= commands_of(entries@.take(i as int)).push(
                entries@[i as int].command,
            ));
        }
        i = i + 1;
    }
    assert(entries@.take(entries@.len() as int) =~= entries@);
    Ghost(passed)
}

} // verus!
