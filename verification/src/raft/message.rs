use vstd::prelude::*;

use crate::raft::log::{copy_entries, LogEntry};
use crate::raft::state::clone_id;

verus! {

/// Every message that nodes and clients exchange.
#[derive(Debug)]
pub enum RaftMessage {
    RequestVote(RequestVoteRequest),
    RequestVoteResponse(RequestVoteResponse),
    AppendEntries(AppendEntriesRequest),
    AppendEntriesResponse(AppendEntriesResponse),
    ClientRequest(ClientRequest),
    ClientResponse(ClientResponse),
}

impl Clone for RaftMessage {
    fn clone(&self) -> (m: Self)
        ensures
            match (*self, m) {
                (RaftMessage::AppendEntries(a), RaftMessage::AppendEntries(b)) => a.same_as(b),
                (RaftMessage::AppendEntries(_), _) => false,
                _ => m == *self,
            },
    {
        match self {
            RaftMessage::RequestVote(r) => RaftMessage::RequestVote(r.clone()),
            RaftMessage::RequestVoteResponse(r) => RaftMessage::RequestVoteResponse(r.clone()),
            RaftMessage::AppendEntries(r) => RaftMessage::AppendEntries(r.clone()),
            RaftMessage::AppendEntriesResponse(r) => RaftMessage::AppendEntriesResponse(r.clone()),
            RaftMessage::ClientRequest(r) => RaftMessage::ClientRequest(r.clone()),
            RaftMessage::ClientResponse(r) => RaftMessage::ClientResponse(r.clone()),
        }
    }
}

/// Sent by a candidate to ask for a vote.
#[derive(Debug)]
pub struct RequestVoteRequest {
    pub term: u64,
    pub candidate_id: String,
    pub last_log_index: u64,
    pub last_log_term: u64,
}

impl Clone for RequestVoteRequest {
    fn clone(&self) -> (r: Self)
        ensures
            r == *self,
    {
        RequestVoteRequest {
            term: self.term,
            candidate_id: self.candidate_id.clone(),
            last_log_index: self.last_log_index,
            last_log_term: self.last_log_term,
        }
    }
}

impl RequestVoteRequest {
    pub fn new(term: u64, candidate_id: String, last_log_index: u64, last_log_term: u64) -> (r: Self)
        ensures
            r == (RequestVoteRequest { term, candidate_id, last_log_index, last_log_term }),
    {
        RequestVoteRequest { term, candidate_id, last_log_index, last_log_term }
    }
}

/// A node's answer to a vote request.
#[derive(Debug)]
pub struct RequestVoteResponse {
    pub term: u64,
    pub vote_granted: bool,
    pub voter_id: String,
}

impl Clone for RequestVoteResponse {
    fn clone(&self) -> (r: Self)
        ensures
            r == *self,
    {
        RequestVoteResponse {
            term: self.term,
            vote_granted: self.vote_granted,
            voter_id: self.voter_id.clone(),
        }
    }
}

impl RequestVoteResponse {
    pub fn granted(term: u64, voter_id: String) -> (r: Self)
        ensures
            r == (RequestVoteResponse { term, vote_granted: true, voter_id }),
    {
        RequestVoteResponse { term, vote_granted: true, voter_id }
    }

    pub fn denied(term: u64, voter_id: String) -> (r: Self)
        ensures
            r == (RequestVoteResponse { term, vote_granted: false, voter_id }),
    {
        RequestVoteResponse { term, vote_granted: false, voter_id }
    }
}

/// Sent by a leader to replicate entries; with no entries it is a heartbeat.
#[derive(Debug)]
pub struct AppendEntriesRequest {
    pub term: u64,
    pub leader_id: String,
    pub prev_log_index: u64,
    pub prev_log_term: u64,
    pub entries: Vec<LogEntry>,
    pub leader_commit: u64,
}

impl Clone for AppendEntriesRequest {
    fn clone(&self) -> (r: Self)
        ensures
            r.same_as(*self),
    {
        let entries = copy_entries(&self.entries, 0, self.entries.len());
        assert(entries@ =~= self.entries@);
        AppendEntriesRequest {
            term: self.term,
            leader_id: self.leader_id.clone(),
            prev_log_index: self.prev_log_index,
            prev_log_term: self.prev_log_term,
            entries,
            leader_commit: self.leader_commit,
        }
    }
}

impl AppendEntriesRequest {
    /// The two requests carry the same fields and the same entries.
    pub open spec fn same_as(self, other: AppendEntriesRequest) -> bool {
        &&& self.term == other.term
        &&& self.leader_id == other.leader_id
        &&& self.prev_log_index == other.prev_log_index
        &&& self.prev_log_term == other.prev_log_term
        &&& self.entries@ == other.entries@
        &&& self.leader_commit == other.leader_commit
    }

    /// A request that carries no entries.
    pub fn heartbeat(
        term: u64,
        leader_id: String,
        prev_log_index: u64,
        prev_log_term: u64,
        leader_commit: u64,
    ) -> (r: Self)
        ensures
            r.term == term,
            r.leader_id == leader_id,
            r.prev_log_index == prev_log_index,
            r.prev_log_term == prev_log_term,
            r.entries@ == Seq::<LogEntry>::empty(),
            r.leader_commit == leader_commit,
    {
        AppendEntriesRequest {
            term,
            leader_id,
            prev_log_index,
            prev_log_term,
            entries: Vec::new(),
            leader_commit,
        }
    }

    /// A request that carries `entries`.
    pub fn with_entries(
        term: u64,
        leader_id: String,
        prev_log_index: u64,
        prev_log_term: u64,
        entries: Vec<LogEntry>,
        leader_commit: u64,
    ) -> (r: Self)
        ensures
            r == (AppendEntriesRequest {
                term,
                leader_id,
                prev_log_index,
                prev_log_term,
                entries,
                leader_commit,
            }),
    {
        AppendEntriesRequest { term, leader_id, prev_log_index, prev_log_term, entries, leader_commit }
    }

    /// Whether the request carries no entries.
    pub fn is_heartbeat(&self) -> (b: bool)
        ensures
            b == (self.entries@.len() == 0),
    {
        self.entries.len() == 0
    }
}

/// A follower's answer to an append request.
#[derive(Debug)]
pub struct AppendEntriesResponse {
    pub term: u64,
    pub success: bool,
    pub follower_id: String,
    pub match_index: u64,
}

impl Clone for AppendEntriesResponse {
    fn clone(&self) -> (r: Self)
        ensures
            r == *self,
    {
        AppendEntriesResponse {
            term: self.term,
            success: self.success,
            follower_id: self.follower_id.clone(),
            match_index: self.match_index,
        }
    }
}

impl AppendEntriesResponse {
    pub fn success(term: u64, follower_id: String, match_index: u64) -> (r: Self)
        ensures
            r == (AppendEntriesResponse { term, success: true, follower_id, match_index }),
    {
        AppendEntriesResponse { term, success: true, follower_id, match_index }
    }

    pub fn failure(term: u64, follower_id: String, match_index: u64) -> (r: Self)
        ensures
            r == (AppendEntriesResponse { term, success: false, follower_id, match_index }),
    {
        AppendEntriesResponse { term, success: false, follower_id, match_index }
    }
}

/// A client's request to the cluster.
#[derive(Debug)]
pub struct ClientRequest {
    pub request_id: String,
    pub command: ClientCommand,
}

impl Clone for ClientRequest {
    fn clone(&self) -> (r: Self)
        ensures
            r == *self,
    {
        ClientRequest { request_id: self.request_id.clone(), command: self.command.clone() }
    }
}

/// What a client asks for.
#[derive(Debug)]
pub enum ClientCommand {
    Put { key: String, value: String },
    Get { key: String },
    Delete { key: String },
}

impl Clone for ClientCommand {
    fn clone(&self) -> (c: Self)
        ensures
            c == *self,
    {
        match self {
            ClientCommand::Put { key, value } => ClientCommand::Put {
                key: key.clone(),
                value: value.clone(),
            },
            ClientCommand::Get { key } => ClientCommand::Get { key: key.clone() },
            ClientCommand::Delete { key } => ClientCommand::Delete { key: key.clone() },
        }
    }
}

/// The answer to a client.
#[derive(Debug)]
pub struct ClientResponse {
    pub request_id: String,
    pub success: bool,
    pub result: Option<String>,
    pub leader_hint: Option<String>,
}

impl Clone for ClientResponse {
    fn clone(&self) -> (r: Self)
        ensures
            r == *self,
    {
        ClientResponse {
            request_id: self.request_id.clone(),
            success: self.success,
            result: clone_id(&self.result),
            leader_hint: clone_id(&self.leader_hint),
        }
    }
}

impl ClientResponse {
    pub fn success(request_id: String, result: Option<String>) -> (r: Self)
        ensures
            r == (ClientResponse { request_id, success: true, result, leader_hint: None }),
    {
        ClientResponse { request_id, success: true, result, leader_hint: None }
    }

    /// The answer of a node that is not the leader, naming the leader it knows of.
    pub fn not_leader(request_id: String, leader_hint: Option<String>) -> (r: Self)
        ensures
            r.request_id == request_id,
            !r.success,
            r.result is Some && r.result.unwrap()@ == "Not the leader"@,
            r.leader_hint == leader_hint,
    {
        ClientResponse {
            request_id,
            success: false,
            result: Some("Not the leader".to_owned()),
            leader_hint,
        }
    }

    pub fn error(request_id: String, error: String) -> (r: Self)
        ensures
            r == (ClientResponse { request_id, success: false, result: Some(error), leader_hint: None }),
    {
        ClientResponse { request_id, success: false, result: Some(error), leader_hint: None }
    }
}

} // verus!
