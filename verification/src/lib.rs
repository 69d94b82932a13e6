pub mod cluster_config;
pub mod handler;
pub mod laws;
pub mod protocol;
pub mod raft;
pub mod raft_handler;
pub mod storage;
pub mod text;
pub mod tick;

pub use raft::log::{Command, LogEntry, RaftLog};
pub use raft::message::{
    AppendEntriesRequest, AppendEntriesResponse, ClientCommand, ClientRequest, ClientResponse,
    RaftMessage, RequestVoteRequest, RequestVoteResponse,
};
pub use raft::node::RaftNode;
pub use raft::state::{NodeState, PersistentState, VolatileState};
pub use storage::engine::{KvStore, StorageEngine};
