use vstd::prelude::*;
use vstd::string::StringExecFns;

use crate::protocol::Command as ProtocolCommand;
use crate::raft::log::{Command, LogEntry};
use crate::raft::message::ClientCommand;
use crate::raft::node::RaftNode;
use crate::raft::state::NodeState;
use crate::storage::engine::StorageEngine;

verus! {

/// The reply line that reports an error.
pub fn error_reply(message: &str) -> (r: String)
    ensures
        r@ == "ERROR: "@ + message@ + "\n"@,
{
    let mut r = "ERROR: ".to_owned();
    r.append(message);
    r.append("\n");
    r
}

/// The reply line that carries a value.
fn value_reply(value: String) -> (r: String)
    ensures
        r@ == value@ + "\n"@,
{
    value.concat("\n")
}

/// The reply line that names the leader, or nothing when none is known.
fn not_leader_reply(leader: &Option<String>) -> (r: String)
    ensures
        r@ == "NOT_LEADER:"@ + (match leader {
            Some(l) => l@,
            None => Seq::<char>::empty(),
        }) + "\n"@,
{
    let mut r = "NOT_LEADER:".to_owned();
    match leader {
        Some(l) => {
            r.append(l.as_str());
        },
        None => {
            assert(r@ + Seq::<char>::empty() =~= r@);
        },
    }
    r.append("\n");
    r
}

/// The reply to a command run against a node's own store: `OK` for a write, the value
/// or `NOT_FOUND` for a read, `OK` or `NOT_FOUND` for a delete, each on its own line.
pub fn execute(cmd: ProtocolCommand, engine: &mut StorageEngine) -> (reply: String)
    ensures
        match cmd {
            ProtocolCommand::Put { key, value } => {
                &&& final(engine)@ == old(engine)@.insert(key@, value@)
                &&& reply@ == "OK\n"@
            },
            ProtocolCommand::Get { key } => {
                &&& final(engine)@ == old(engine)@
                &&& reply@ == (if old(engine)@.contains_key(key@) {
                    old(engine)@[key@] + "\n"@
                } else {
                    "NOT_FOUND\n"@
                })
            },
            ProtocolCommand::Delete { key } => {
                &&& final(engine)@ == old(engine)@.remove(key@)
                &&& reply@ == (if old(engine)@.contains_key(key@) {
                    "OK\n"@
                } else {
                    "NOT_FOUND\n"@
                })
            },
        },
{
    match cmd {
        ProtocolCommand::Put { key, value } => {
            match engine.set(key, value) {
                Ok(_) => "OK\n".to_owned(),
                Err(e) => error_reply(e.as_str()),
            }
        },
        ProtocolCommand::Get { key } => {
            match engine.get(&key) {
                Ok(Some(val)) => value_reply(val),
                Ok(None) => "NOT_FOUND\n".to_owned(),
                Err(e) => error_reply(e.as_str()),
            }
        },
        ProtocolCommand::Delete { key } => {
            match engine.delete(&key) {
                Ok(Some(_)) => "OK\n".to_owned(),
                Ok(None) => "NOT_FOUND\n".to_owned(),
                Err(e) => error_reply(e.as_str()),
            }
        },
    }
}

/// The reply to a command given to a cluster node. Any node answers a read from its
/// own store. The leader appends a write to its log in its term and answers `OK`, or
/// `NOT_FOUND` for a delete of a key that its store does not hold; a node that does
/// not lead answers with the leader it knows of.
pub fn execute_with_cluster(cmd: ProtocolCommand, raft: &mut RaftNode, store: &StorageEngine) -> (reply:
    String)
    requires
        old(raft).state == NodeState::Leader && !(cmd is Get) ==> old(raft).log@.last_index
            < u64::MAX,
    ensures
        match cmd {
            ProtocolCommand::Get { key } => {
                &&& *final(raft) == *old(raft)
                &&& reply@ == (if store@.contains_key(key@) {
                    store@[key@] + "\n"@
                } else {
                    "NOT_FOUND\n"@
                })
            },
            _ => {
                &&& old(raft).state == NodeState::Leader ==> {
                    &&& reply@ == (match cmd {
                        ProtocolCommand::Delete { key } => if store@.contains_key(key@) {
                            "OK\n"@
                        } else {
                            "NOT_FOUND\n"@
                        },
                        _ => "OK\n"@,
                    })
                    &&& final(raft).log@ == old(raft).log@.pushed(
                        LogEntry {
                            term: old(raft).term(),
                            index: (old(raft).log@.last_index + 1) as u64,
                            command: written_command(cmd),
                        },
                    )
                    &&& *final(raft) == (RaftNode { log: final(raft).log, ..*old(raft) })
                }
                &&& old(raft).state != NodeState::Leader ==> {
                    &&& *final(raft) == *old(raft)
                    &&& reply@ == "NOT_LEADER:"@ + (match old(raft).current_leader {
                        Some(l) => l@,
                        None => Seq::<char>::empty(),
                    }) + "\n"@
                }
            },
        },
{
    match cmd {
        ProtocolCommand::Get { key } => {
            match store.get(&key) {
                Ok(Some(val)) => value_reply(val),
                Ok(None) => "NOT_FOUND\n".to_owned(),
                Err(e) => error_reply(e.as_str()),
            }
        },
        ProtocolCommand::Put { key, value } => {
            if raft.is_leader() {
                let term = raft.current_term();
                raft.log.append(term, Command::Put { key, value });
                "OK\n".to_owned()
            } else {
                not_leader_reply(&raft.current_leader)
            }
        },
        ProtocolCommand::Delete { key } => {
            if raft.is_leader() {
                let held = match store.get(&key) {
                    Ok(Some(_)) => true,
                    _ => false,
                };
                let term = raft.current_term();
                raft.log.append(term, Command::Delete { key });
                if held {
                    "OK\n".to_owned()
                } else {
                    "NOT_FOUND\n".to_owned()
                }
            } else {
                not_leader_reply(&raft.current_leader)
            }
        },
    }
}

/// The log command that a write of the text protocol becomes.
pub open spec fn written_command(cmd: ProtocolCommand) -> Command {
    match cmd {
        ProtocolCommand::Put { key, value } => Command::Put { key, value },
        ProtocolCommand::Delete { key } => Command::Delete { key },
        ProtocolCommand::Get { key } => Command::Noop,
    }
}

/// The answer of a cluster node to a client command, as the cluster's own transport
/// carries it: a read and a refusal as `execute_with_cluster` gives them, without the
/// line ends; a write that the leader appended to its log is answered `QUEUED`.
pub fn handle_client_command(cmd: ClientCommand, raft: &mut RaftNode, store: &StorageEngine) -> (reply:
    String)
    requires
        old(raft).state == NodeState::Leader && !(cmd is Get) ==> old(raft).log@.last_index
            < u64::MAX,
    ensures
        match cmd {
            ClientCommand::Get { key } => {
                &&& *final(raft) == *old(raft)
                &&& reply@ == (if store@.contains_key(key@) {
                    store@[key@]
                } else {
                    "NOT_FOUND"@
                })
            },
            _ => {
                &&& old(raft).state == NodeState::Leader ==> {
                    &&& reply@ == "QUEUED"@
                    &&& final(raft).log@ == old(raft).log@.pushed(
                        LogEntry {
                            term: old(raft).term(),
                            index: (old(raft).log@.last_index + 1) as u64,
                            command: client_written_command(cmd),
                        },
                    )
                    &&& *final(raft) == (RaftNode { log: final(raft).log, ..*old(raft) })
                }
                &&& old(raft).state != NodeState::Leader ==> {
                    &&& *final(raft) == *old(raft)
                    &&& reply@ == "NOT_LEADER:"@ + (match old(raft).current_leader {
                        Some(l) => l@,
                        None => Seq::<char>::empty(),
                    })
                }
            },
        },
{
    match cmd {
        ClientCommand::Get { key } => {
            match store.get(&key) {
                Ok(Some(value)) => value,
                Ok(None) => "NOT_FOUND".to_owned(),
                Err(e) => {
                    let mut r = "ERROR: ".to_owned();
                    r.append(e.as_str());
                    r
                },
            }
        },
        ClientCommand::Put { key, value } => {
            if raft.is_leader() {
                let term = raft.current_term();
                raft.log.append(term, Command::Put { key, value });
                "QUEUED".to_owned()
            } else {
                let mut r = "NOT_LEADER:".to_owned();
                match &raft.current_leader {
                    Some(l) => {
                        r.append(l.as_str());
                    },
                    None => {
                        assert(r@ + Seq::<char>::empty() =~= r@);
                    },
                }
                r
            }
        },
        ClientCommand::Delete { key } => {
            if raft.is_leader() {
                let term = raft.current_term();
                raft.log.append(term, Command::Delete { key });
                "QUEUED".to_owned()
            } else {
                let mut r = "NOT_LEADER:".to_owned();
                match &raft.current_leader {
                    Some(l) => {
                        r.append(l.as_str());
                    },
                    None => {
                        assert(r@ + Seq::<char>::empty() =~= r@);
                    },
                }
                r
            }
        },
    }
}

/// The log command that a client's write becomes.
pub open spec fn client_written_command(cmd: ClientCommand) -> Command {
    match cmd {
        ClientCommand::Put { key, value } => Command::Put { key, value },
        ClientCommand::Delete { key } => Command::Delete { key },
        ClientCommand::Get { key } => Command::Noop,
    }
}

} // verus!
