use std::time::{Duration, Instant};

use quorumdb::cluster_config::{parse_peers, ClusterConfig};
use quorumdb::handler::{error_reply, execute, execute_with_cluster, handle_client_command};
use quorumdb::protocol::{command_from_words, parse, Command as LineCommand};
use quorumdb::raft::ids::IdSet;
use quorumdb::raft::log::{Command, LogEntry, RaftLog};
use quorumdb::raft::message::{
    AppendEntriesRequest, AppendEntriesResponse, ClientCommand, ClientRequest, ClientResponse,
    RaftMessage, RequestVoteRequest, RequestVoteResponse,
};
use quorumdb::raft::node::RaftNode;
use quorumdb::raft::state::{ElectionConfig, ElectionTimer, LeaderState, NodeState, VolatileState};
use quorumdb::raft_handler::{apply_committed_entries, handle_raft_message, RaftReply};
use quorumdb::storage::engine::StorageEngine;
use quorumdb::storage::wal::{decode_frames, encode_frame, WalError};
use quorumdb::tick::{apply_all, apply_command, apply_committed, tick};

fn s(x: &str) -> String {
    x.to_string()
}

// ==================== Store ====================

#[test]
fn store_reads_back_last_write() {
    let mut e = StorageEngine::new();
    e.set(s("k"), s("v1")).unwrap();
    e.set(s("other"), s("o")).unwrap();
    e.set(s("k"), s("v2")).unwrap();
    assert_eq!(e.get(&s("k")), Ok(Some(s("v2"))));
    assert_eq!(e.get(&s("other")), Ok(Some(s("o"))));
    assert_eq!(e.len(), Ok(2));
}

#[test]
fn store_delete_then_read_finds_nothing() {
    let mut e = StorageEngine::new();
    e.set(s("a"), s("1")).unwrap();
    e.set(s("b"), s("2")).unwrap();
    assert_eq!(e.delete(&s("a")), Ok(Some(s("1"))));
    assert_eq!(e.get(&s("a")), Ok(None));
    assert_eq!(e.get(&s("b")), Ok(Some(s("2"))));
    assert_eq!(e.delete(&s("a")), Ok(None));
    assert_eq!(e.len(), Ok(1));
}

#[test]
fn store_clear_and_empty() {
    let mut e = StorageEngine::default();
    assert_eq!(e.is_empty(), Ok(true));
    e.set(s("a"), s("1")).unwrap();
    assert_eq!(e.is_empty(), Ok(false));
    assert_eq!(e.clear(), Ok(()));
    assert_eq!(e.is_empty(), Ok(true));
    assert_eq!(e.len(), Ok(0));
}

#[test]
fn apply_commands_to_store() {
    let mut e = StorageEngine::new();
    apply_command(&mut e, &Command::Put { key: s("x"), value: s("1") });
    apply_command(&mut e, &Command::Noop);
    assert_eq!(e.get(&s("x")), Ok(Some(s("1"))));
    apply_command(&mut e, &Command::Delete { key: s("x") });
    assert_eq!(e.get(&s("x")), Ok(None));
}

#[test]
fn apply_all_folds_entries_in_order() {
    let mut e = StorageEngine::new();
    e.set(s("keep"), s("0")).unwrap();
    let entries = vec![
        LogEntry::new(1, 1, Command::Noop),
        LogEntry::new(1, 2, Command::Put { key: s("x"), value: s("1") }),
        LogEntry::new(1, 3, Command::Put { key: s("x"), value: s("2") }),
        LogEntry::new(1, 4, Command::Put { key: s("y"), value: s("3") }),
        LogEntry::new(1, 5, Command::Delete { key: s("y") }),
    ];
    apply_all(&mut e, &entries);
    assert_eq!(e.get(&s("x")), Ok(Some(s("2"))));
    assert_eq!(e.get(&s("y")), Ok(None));
    assert_eq!(e.get(&s("keep")), Ok(Some(s("0"))));
    assert_eq!(e.len(), Ok(2));
    apply_all(&mut e, &Vec::new());
    assert_eq!(e.len(), Ok(2));
}

#[test]
fn committed_commands_are_handed_out_once_in_order() {
    let mut node = RaftNode::new(s("node1"), vec![s("node2")]);
    node.log.append(1, Command::Put { key: s("a"), value: s("1") });
    node.log.append(1, Command::Delete { key: s("a") });
    node.log.append(1, Command::Noop);
    node.volatile.commit_index = 2;
    let seen = std::cell::RefCell::new(Vec::new());
    apply_committed_entries(&mut node, |c| seen.borrow_mut().push(c));
    assert_eq!(
        seen.borrow().clone(),
        vec![Command::Put { key: s("a"), value: s("1") }, Command::Delete { key: s("a") }]
    );
    assert_eq!(node.volatile.last_applied, 2);
    apply_committed_entries(&mut node, |c| seen.borrow_mut().push(c));
    assert_eq!(seen.borrow().len(), 2);
}

#[test]
fn apply_committed_skips_writes_the_log_refused() {
    let mut e = StorageEngine::new();
    e.set(s("d"), s("0")).unwrap();
    let entries = vec![
        LogEntry::new(1, 1, Command::Put { key: s("a"), value: s("1") }),
        LogEntry::new(1, 2, Command::Put { key: s("b"), value: s("2") }),
        LogEntry::new(1, 3, Command::Delete { key: s("d") }),
        LogEntry::new(1, 4, Command::Noop),
    ];
    apply_committed(&mut e, &entries, &vec![true, false, false, false]);
    assert_eq!(e.get(&s("a")), Ok(Some(s("1"))));
    assert_eq!(e.get(&s("b")), Ok(None));
    assert_eq!(e.get(&s("d")), Ok(None));
    assert_eq!(e.len(), Ok(1));
}

#[test]
fn tick_round_applies_committed_entries_once() {
    let mut node = RaftNode::new(s("node1"), vec![s("node2"), s("node3")]);
    node.start_election();
    node.become_leader();
    node.log.append(1, Command::Put { key: s("a"), value: s("1") });
    node.log.append(1, Command::Put { key: s("b"), value: s("2") });
    node.log.append(1, Command::Delete { key: s("a") });
    node.volatile.commit_index = 3;
    let mut store = StorageEngine::new();
    let plan = tick(&mut node, false, false);
    let indices: Vec<u64> = plan.to_apply.iter().map(|e| e.index).collect();
    assert_eq!(indices, vec![1, 2, 3]);
    apply_all(&mut store, &plan.to_apply);
    assert_eq!(store.get(&s("a")), Ok(Some(s("1"))));
    assert_eq!(store.get(&s("b")), Ok(Some(s("2"))));
    assert_eq!(node.volatile.last_applied, 3);
    node.volatile.commit_index = 4;
    let plan = tick(&mut node, false, false);
    assert_eq!(plan.to_apply.len(), 1);
    assert_eq!(plan.to_apply[0].index, 4);
    apply_all(&mut store, &plan.to_apply);
    assert_eq!(store.get(&s("a")), Ok(None));
    let plan = tick(&mut node, false, false);
    assert!(plan.to_apply.is_empty());
}

// ==================== Log ====================

#[test]
fn log_ranges_and_copies() {
    let mut log = RaftLog::new();
    log.append(1, Command::Noop);
    log.append(1, Command::Put { key: s("k"), value: s("v") });
    log.append(2, Command::Delete { key: s("k") });

    let range = log.get_range(1, 2);
    assert_eq!(range.len(), 2);
    assert_eq!(range[1].index, 2);
    assert!(log.get_range(0, 5).is_empty());
    assert!(log.get_range(4, 5).is_empty());
    assert_eq!(log.get_range(2, 10).len(), 2);

    let from = log.get_from(2);
    assert_eq!(from.len(), 2);
    assert_eq!(from[0].command, Command::Put { key: s("k"), value: s("v") });
    assert!(log.get_from(0).is_empty());

    let copy = log.clone();
    assert_eq!(copy.last_index(), 3);
    assert_eq!(copy.get(3), log.get(3));
}

#[test]
fn log_append_multiple_skips_known_indices() {
    let mut log = RaftLog::new();
    log.append(1, Command::Noop);
    log.append_multiple_entries(vec![
        LogEntry::new(1, 1, Command::Delete { key: s("dup") }),
        LogEntry::new(2, 2, Command::Noop),
        LogEntry::noop(3, 3),
    ]);
    assert_eq!(log.last_index(), 3);
    assert_eq!(log.last_term(), 3);
    assert_eq!(log.get(1).unwrap().command, Command::Noop);
    assert_eq!(log.len(), 3);
}

#[test]
fn log_truncate_to_nothing() {
    let mut log = RaftLog::default();
    assert!(log.is_empty());
    log.append(4, Command::Noop);
    log.append(5, Command::Noop);
    log.truncate_after(0);
    assert_eq!(log.last_index(), 0);
    assert_eq!(log.last_term(), 0);
    assert!(log.is_empty());
    log.truncate_after(3);
    assert_eq!(log.last_index(), 0);
}

#[test]
fn follower_agrees_with_leader_after_replication() {
    let mut leader = RaftNode::new(s("node1"), vec![s("node2")]);
    let mut follower = RaftNode::new(s("node2"), vec![s("node1")]);

    // The follower holds an entry from an old term that the leader never had.
    follower.log.append(1, Command::Noop);
    follower.log.append(1, Command::Put { key: s("stale"), value: s("x") });

    leader.log.append(1, Command::Noop);
    leader.persistent.current_term = 1;
    leader.start_election();
    leader.become_leader();
    leader.log.append(2, Command::Put { key: s("fresh"), value: s("y") });

    // Walk the leader back until the follower accepts.
    let mut accepted = false;
    for _ in 0..5 {
        let request = leader.create_append_entries("node2").unwrap();
        let response = follower.handle_append_entries(&request);
        leader.handle_append_entries_response(&response);
        if response.success {
            accepted = true;
            break;
        }
    }
    assert!(accepted);
    assert_eq!(follower.log.last_index(), leader.log.last_index());
    for i in 0..=leader.log.last_index() {
        assert_eq!(follower.log.term_at(i), leader.log.term_at(i));
    }
    assert_eq!(follower.log.get(2).unwrap().command, Command::Noop);
}

// ==================== Elections ====================

#[test]
fn one_vote_per_term() {
    let mut voter = RaftNode::new(s("node2"), vec![s("node1"), s("node3")]);
    let first = voter.handle_request_vote(&RequestVoteRequest::new(1, s("node1"), 0, 0));
    assert!(first.vote_granted);
    let second = voter.handle_request_vote(&RequestVoteRequest::new(1, s("node3"), 0, 0));
    assert!(!second.vote_granted);
    assert_eq!(voter.persistent.voted_for, Some(s("node1")));
    // The same candidate asking again is granted again.
    let again = voter.handle_request_vote(&RequestVoteRequest::new(1, s("node1"), 0, 0));
    assert!(again.vote_granted);
    assert!(voter.persistent.already_voted_for("node1"));
    assert!(!voter.persistent.already_voted_for("node3"));
}

#[test]
fn no_vote_for_older_term_and_terms_never_decrease() {
    let mut node = RaftNode::new(s("node1"), vec![s("node2")]);
    node.persistent.current_term = 7;
    let resp = node.handle_request_vote(&RequestVoteRequest::new(6, s("node2"), 9, 9));
    assert!(!resp.vote_granted);
    assert_eq!(resp.term, 7);
    let resp = node.handle_append_entries(&AppendEntriesRequest::heartbeat(3, s("node2"), 0, 0, 0));
    assert!(!resp.success);
    assert_eq!(node.current_term(), 7);
    node.become_follower(2);
    assert_eq!(node.current_term(), 7);
}

#[test]
fn quorums_overlap() {
    for n in 0..7 {
        let peers: Vec<String> = (0..n).map(|i| format!("p{}", i)).collect();
        let node = RaftNode::new(s("me"), peers);
        assert!(2 * node.quorum_size() > node.cluster_size());
        assert!(node.quorum_size() <= node.cluster_size());
    }
}

#[test]
fn stale_or_foreign_vote_answers_are_ignored() {
    let mut node = RaftNode::new(s("node1"), vec![s("node2"), s("node3"), s("node4"), s("node5")]);
    node.start_election();
    let won = node.handle_request_vote_response(&quorumdb::RequestVoteResponse::granted(0, s("node2")));
    assert!(!won);
    assert_eq!(node.votes_received.len(), 1);
    let won = node.handle_request_vote_response(&quorumdb::RequestVoteResponse::denied(1, s("node2")));
    assert!(!won);
    let won = node.handle_request_vote_response(&quorumdb::RequestVoteResponse::granted(1, s("node2")));
    assert!(!won);
    let won = node.handle_request_vote_response(&quorumdb::RequestVoteResponse::granted(1, s("node2")));
    assert!(!won);
    assert_eq!(node.votes_received.len(), 2);
    let won = node.handle_request_vote_response(&quorumdb::RequestVoteResponse::granted(1, s("node3")));
    assert!(won);
    assert!(node.is_leader());
    let won = node.handle_request_vote_response(&quorumdb::RequestVoteResponse::granted(9, s("node4")));
    assert!(!won);
    assert!(node.is_follower());
    assert_eq!(node.current_term(), 9);
}

#[test]
fn vote_set_keeps_each_id_once() {
    let mut set = IdSet::new();
    assert!(set.insert(s("a")));
    assert!(!set.insert(s("a")));
    assert!(set.insert(s("b")));
    assert_eq!(set.len(), 2);
    assert!(set.contains("b"));
    set.clear();
    assert_eq!(set.len(), 0);
    assert!(!set.contains("a"));
}

// ==================== Commitment ====================

#[test]
fn commit_index_is_median_of_progress() {
    let peers = vec![s("p1"), s("p2"), s("p3")];
    let mut ls = LeaderState::new(&peers, 0);
    ls.update_peer_progress("p1", 5);
    ls.update_peer_progress("p2", 3);
    ls.update_peer_progress("p3", 7);
    // Sorted progress: 3, 5, 7; the middle one is 5.
    assert_eq!(ls.calculate_commit_index(0, 2, |_| Some(2)), 5);
    assert_eq!(ls.calculate_commit_index(6, 2, |_| Some(2)), 6);
    assert_eq!(ls.calculate_commit_index(0, 2, |_| Some(1)), 0);
    assert_eq!(ls.calculate_commit_index(0, 2, |_| None), 0);
    let empty = LeaderState::new(&[], 4);
    assert_eq!(empty.calculate_commit_index(3, 2, |_| Some(2)), 3);
}

#[test]
fn leader_commits_only_its_own_term() {
    let mut leader = RaftNode::new(s("node1"), vec![s("node2"), s("node3")]);
    leader.start_election();
    leader.become_leader();
    let ack = AppendEntriesResponse::success(1, s("node2"), 1);
    leader.handle_append_entries_response(&ack);
    assert_eq!(leader.commit_index(), 1);

    // A later term does not commit an entry of term one by replication alone.
    leader.persistent.current_term = 2;
    leader.log.append(1, Command::Noop);
    let ack = AppendEntriesResponse::success(2, s("node3"), 2);
    leader.handle_append_entries_response(&ack);
    assert_eq!(leader.commit_index(), 1);
}

#[test]
fn failed_append_moves_next_index_back() {
    let mut leader = RaftNode::new(s("node1"), vec![s("node2")]);
    leader.log.append(1, Command::Noop);
    leader.log.append(1, Command::Noop);
    leader.persistent.current_term = 1;
    leader.start_election();
    leader.become_leader();
    let ls = leader.leader_state.as_ref().unwrap();
    assert_eq!(ls.get_next_index("node2"), 3);
    leader.handle_append_entries_response(&AppendEntriesResponse::failure(2, s("node2"), 0));
    assert_eq!(leader.leader_state.as_ref().unwrap().get_next_index("node2"), 2);
    assert_eq!(leader.leader_state.as_ref().unwrap().get_next_index("unknown"), 1);
    assert_eq!(leader.leader_state.as_ref().unwrap().get_match_index("unknown"), 0);
}

#[test]
fn applying_twice_finds_nothing_new() {
    let mut v = VolatileState::new();
    v.update_commit_index(3);
    v.update_commit_index(2);
    assert_eq!(v.commit_index, 3);
    assert_eq!(v.apply_entries(), vec![1, 2, 3]);
    assert!(v.apply_entries().is_empty());
    v.last_applied = 5;
    assert!(v.apply_entries().is_empty());
    assert_eq!(v.last_applied, 5);
}

// ==================== Write-ahead log ====================

#[test]
fn frame_has_big_endian_length() {
    assert_eq!(encode_frame(b"abc"), vec![0, 0, 0, 3, b'a', b'b', b'c']);
    let long = vec![7u8; 258];
    let framed = encode_frame(&long);
    assert_eq!(&framed[0..4], &[0, 0, 1, 2]);
    assert_eq!(framed.len(), 262);
}

#[test]
fn log_bytes_read_back_as_written() {
    let mut bytes = encode_frame(b"first");
    bytes.extend(encode_frame(b""));
    bytes.extend(encode_frame(b"third"));
    let records = decode_frames(&bytes).unwrap();
    assert_eq!(records, vec![b"first".to_vec(), Vec::new(), b"third".to_vec()]);
    // A partial length prefix at the end is ignored.
    bytes.extend([0u8, 0]);
    assert_eq!(decode_frames(&bytes).unwrap().len(), 3);
}

#[test]
fn truncated_record_is_an_error() {
    let mut bytes = encode_frame(b"whole");
    bytes.extend([0u8, 0, 0, 9, 1, 2]);
    assert_eq!(decode_frames(&bytes), Err(WalError::TruncatedRecord));
    assert_eq!(decode_frames(&[]), Ok(Vec::new()));
}

// ==================== Protocol ====================

#[test]
fn parse_takes_any_case_and_any_white_space() {
    match parse("set\tk\u{00a0}v\n").unwrap() {
        LineCommand::Put { key, value } => {
            assert_eq!(key, "k");
            assert_eq!(value, "v");
        }
        _ => panic!("Expected Set command"),
    }
    match parse("dElEtE x").unwrap() {
        LineCommand::Delete { key } => assert_eq!(key, "x"),
        _ => panic!("Expected Delete command"),
    }
    match parse("GET\u{3000}k\u{2029}").unwrap() {
        LineCommand::Get { key } => assert_eq!(key, "k"),
        _ => panic!("Expected Get command"),
    }
    assert_eq!(parse("\t \n").unwrap_err(), "Empty command");
    assert_eq!(
        parse("PUT a b").unwrap_err(),
        "Invalid command. Use: SET <key> <value>, GET <key>, or DELETE <key>"
    );
}

#[test]
fn words_name_a_command_by_their_upper_case_head() {
    let w = |xs: &[&str]| xs.iter().map(|x| x.chars().collect::<Vec<char>>()).collect::<Vec<_>>();
    match command_from_words("SET", &w(&["set", "k", "v"])).unwrap() {
        LineCommand::Put { key, value } => assert_eq!((key, value), (s("k"), s("v"))),
        _ => panic!("Expected Set command"),
    }
    match command_from_words("GET", &w(&["Get", "k"])).unwrap() {
        LineCommand::Get { key } => assert_eq!(key, "k"),
        _ => panic!("Expected Get command"),
    }
    match command_from_words("DELETE", &w(&["delete", "k"])).unwrap() {
        LineCommand::Delete { key } => assert_eq!(key, "k"),
        _ => panic!("Expected Delete command"),
    }
    let invalid = "Invalid command. Use: SET <key> <value>, GET <key>, or DELETE <key>";
    assert_eq!(command_from_words("GET", &w(&["get", "a", "b"])).unwrap_err(), invalid);
    assert_eq!(command_from_words("set", &w(&["set", "k", "v"])).unwrap_err(), invalid);
    assert_eq!(command_from_words("PUT", &w(&["put", "k", "v"])).unwrap_err(), invalid);
}

// ==================== Configuration ====================

#[test]
fn peer_list_entries() {
    let peers = parse_peers("node2:host2:7011,,node3:host3:7021,solo,:nohost:1,a:b:c:d");
    assert_eq!(
        peers,
        vec![
            (s("node2"), s("host2:7011")),
            (s("node3"), s("host3:7021")),
            (s("a"), s("b:c")),
        ]
    );
    assert!(parse_peers("").is_empty());
}

#[test]
fn settings_with_defaults() {
    let c = ClusterConfig::from_settings(None, None, None, None, None);
    assert_eq!(c.node_id, "node1");
    assert_eq!(c.bind_addr, "0.0.0.0");
    assert_eq!(c.client_port, 7000);
    assert_eq!(c.raft_port, 7001);
    assert!(c.peers.is_empty());

    let c = ClusterConfig::from_settings(
        Some(s("n9")),
        Some(s("127.0.0.1")),
        Some(s("8080")),
        Some(s("not a port")),
        Some(s("n1:h:1")),
    );
    assert_eq!(c.node_id, "n9");
    assert_eq!(c.client_port, 8080);
    assert_eq!(c.raft_port, 7001);
    assert_eq!(c.peers, vec![(s("n1"), s("h:1"))]);
    assert_eq!(c.client_addr(), "127.0.0.1:8080");
    assert_eq!(c.peer_addresses(), vec![s("h:1")]);
    let copy = c.clone();
    assert_eq!(copy.raft_addr(), "127.0.0.1:7001");
}

#[test]
fn ports_take_an_optional_plus_and_decimal_digits_only() {
    let port = |t: &str| ClusterConfig::from_settings(None, None, Some(s(t)), None, None).client_port;
    assert_eq!(port("+8080"), 8080);
    assert_eq!(port("007"), 7);
    assert_eq!(port("65535"), 65535);
    assert_eq!(port("65536"), 7000);
    assert_eq!(port("-1"), 7000);
    assert_eq!(port("+"), 7000);
    assert_eq!(port(""), 7000);
    assert_eq!(port(" 80"), 7000);
    assert_eq!(port("8o"), 7000);
}

#[test]
fn addresses_write_ports_in_decimal() {
    let mut c = ClusterConfig::default_cluster();
    c.client_port = 0;
    c.raft_port = 65535;
    assert_eq!(c.client_addr(), "0.0.0.0:0");
    assert_eq!(c.raft_addr(), "0.0.0.0:65535");
    assert_eq!(c.peer_addresses(), vec![s("node2:7001"), s("node3:7001")]);
}

// ==================== Replies ====================

#[test]
fn local_replies() {
    let mut e = StorageEngine::new();
    assert_eq!(execute(LineCommand::Get { key: s("k") }, &mut e), "NOT_FOUND\n");
    assert_eq!(execute(LineCommand::Put { key: s("k"), value: s("v") }, &mut e), "OK\n");
    assert_eq!(execute(LineCommand::Get { key: s("k") }, &mut e), "v\n");
    assert_eq!(execute(LineCommand::Delete { key: s("k") }, &mut e), "OK\n");
    assert_eq!(execute(LineCommand::Delete { key: s("k") }, &mut e), "NOT_FOUND\n");
    assert_eq!(error_reply("boom"), "ERROR: boom\n");
}

#[test]
fn cluster_replies() {
    let mut store = StorageEngine::new();
    store.set(s("k"), s("v")).unwrap();
    let mut node = RaftNode::new(s("node1"), vec![s("node2")]);

    let put = || LineCommand::Put { key: s("a"), value: s("b") };
    assert_eq!(execute_with_cluster(put(), &mut node, &store), "NOT_LEADER:\n");
    node.current_leader = Some(s("node2"));
    assert_eq!(execute_with_cluster(put(), &mut node, &store), "NOT_LEADER:node2\n");
    assert_eq!(node.log.len(), 0);
    assert_eq!(execute_with_cluster(LineCommand::Get { key: s("k") }, &mut node, &store), "v\n");

    node.start_election();
    node.become_leader();
    assert_eq!(execute_with_cluster(put(), &mut node, &store), "OK\n");
    assert_eq!(
        execute_with_cluster(LineCommand::Delete { key: s("a") }, &mut node, &store),
        "NOT_FOUND\n"
    );
    assert_eq!(
        execute_with_cluster(LineCommand::Delete { key: s("k") }, &mut node, &store),
        "OK\n"
    );
    assert_eq!(node.log.len(), 4);
    assert_eq!(node.log.get(3).unwrap().command, Command::Delete { key: s("a") });
    assert_eq!(node.log.get(4).unwrap().command, Command::Delete { key: s("k") });

    let reply = handle_client_command(ClientCommand::Put { key: s("c"), value: s("d") }, &mut node, &store);
    assert_eq!(reply, "QUEUED");
    assert_eq!(handle_client_command(ClientCommand::Delete { key: s("k") }, &mut node, &store), "QUEUED");
    assert_eq!(handle_client_command(ClientCommand::Delete { key: s("q") }, &mut node, &store), "QUEUED");
    assert_eq!(node.log.len(), 7);
    assert_eq!(handle_client_command(ClientCommand::Get { key: s("k") }, &mut node, &store), "v");
    assert_eq!(handle_client_command(ClientCommand::Get { key: s("z") }, &mut node, &store), "NOT_FOUND");

    let mut follower = RaftNode::new(s("node2"), vec![s("node1")]);
    follower.current_leader = Some(s("node1"));
    assert_eq!(
        handle_client_command(ClientCommand::Delete { key: s("c") }, &mut follower, &store),
        "NOT_LEADER:node1"
    );
}

#[test]
fn client_requests_to_nodes() {
    let mut node = RaftNode::new(s("node1"), vec![s("node2")]);
    let request = ClientRequest { request_id: s("r1"), command: ClientCommand::Put { key: s("k"), value: s("v") } };
    let resp = node.handle_client_request(&request);
    assert!(!resp.success);
    assert_eq!(resp.result, Some(s("Not the leader")));
    node.start_election();
    node.become_leader();
    let resp = node.handle_client_request(&request);
    assert_eq!(resp.request_id, "r1");
    assert!(resp.success);
    assert_eq!(node.log.get(2).unwrap().command, Command::Put { key: s("k"), value: s("v") });
    let read = ClientRequest { request_id: s("r2"), command: ClientCommand::Get { key: s("k") } };
    assert!(node.handle_client_request(&read).success);
    assert_eq!(node.log.len(), 2);
    let err = ClientResponse::error(s("r3"), s("bad"));
    assert_eq!(err.result, Some(s("bad")));
    assert!(!err.success);
}

#[test]
fn raft_messages_are_dispatched() {
    let mut node = RaftNode::new(s("node1"), vec![s("node2")]);
    let reply = handle_raft_message(
        &mut node,
        RaftMessage::RequestVote(RequestVoteRequest::new(1, s("node2"), 0, 0)),
    );
    match reply {
        RaftReply::Vote(r) => assert!(r.vote_granted),
        _ => panic!("Expected a vote"),
    }
    let reply = handle_raft_message(
        &mut node,
        RaftMessage::ClientResponse(ClientResponse::success(s("x"), None)),
    );
    assert!(matches!(reply, RaftReply::Invalid));
    let reply = handle_raft_message(
        &mut node,
        RaftMessage::AppendEntries(AppendEntriesRequest::heartbeat(1, s("node2"), 0, 0, 0)),
    );
    match reply {
        RaftReply::Append(r) => assert!(r.success),
        _ => panic!("Expected an append answer"),
    }
    assert_eq!(node.current_leader, Some(s("node2")));
}

#[test]
fn follower_catches_up_and_repeat_changes_nothing() {
    let mut leader = RaftNode::new(s("node1"), vec![s("node2")]);
    leader.start_election();
    leader.become_leader();
    leader.log.append(1, Command::Put { key: s("k"), value: s("v") });
    leader.volatile.commit_index = 2;
    let mut follower = RaftNode::new(s("node2"), vec![s("node1")]);
    let req = leader.create_append_entries("node2").unwrap();
    let r1 = follower.handle_append_entries(&req);
    assert!(r1.success);
    assert_eq!(r1.match_index, leader.log.last_index());
    assert_eq!(follower.log.last_index(), 2);
    assert_eq!(follower.log.get(2), leader.log.get(2));
    assert_eq!(follower.current_leader, Some(s("node1")));
    assert_eq!(follower.commit_index(), 2);
    let r2 = follower.handle_append_entries(&req);
    assert_eq!(
        (r2.term, r2.success, r2.follower_id.clone(), r2.match_index),
        (r1.term, r1.success, r1.follower_id.clone(), r1.match_index)
    );
    assert_eq!(follower.log.len(), 2);
    assert_eq!(follower.log.last_term(), 1);
    assert_eq!(follower.commit_index(), 2);
}

#[test]
fn one_grant_per_term_across_calls() {
    let mut node = RaftNode::new(s("node3"), vec![s("node1"), s("node2")]);
    let q1 = RequestVoteRequest::new(1, s("node1"), 0, 0);
    assert!(node.handle_request_vote(&q1).vote_granted);
    node.handle_append_entries(&AppendEntriesRequest::heartbeat(1, s("node1"), 0, 0, 0));
    node.handle_request_vote_response(&RequestVoteResponse::denied(1, s("node2")));
    let q2 = RequestVoteRequest::new(1, s("node2"), 5, 1);
    assert!(!node.handle_request_vote(&q2).vote_granted);
    assert!(node.handle_request_vote(&q1).vote_granted);
    let q3 = RequestVoteRequest::new(2, s("node2"), 0, 0);
    assert!(node.handle_request_vote(&q3).vote_granted);
}

#[test]
fn dispatched_answers_change_the_node() {
    let mut node = RaftNode::new(s("node1"), vec![s("node2"), s("node3")]);
    node.start_election();
    let reply = handle_raft_message(
        &mut node,
        RaftMessage::RequestVoteResponse(RequestVoteResponse::granted(1, s("node2"))),
    );
    assert!(matches!(reply, RaftReply::Acknowledged));
    assert!(node.is_leader());
    assert_eq!(node.log.len(), 1);
    let reply = handle_raft_message(
        &mut node,
        RaftMessage::AppendEntriesResponse(AppendEntriesResponse::success(1, s("node2"), 1)),
    );
    assert!(matches!(reply, RaftReply::Acknowledged));
    assert_eq!(node.commit_index(), 1);
    let request = ClientRequest { request_id: s("r"), command: ClientCommand::Put { key: s("k"), value: s("v") } };
    match handle_raft_message(&mut node, RaftMessage::ClientRequest(request)) {
        RaftReply::Client(resp) => assert!(resp.success),
        _ => panic!("Expected a client answer"),
    }
    assert_eq!(node.log.len(), 2);
    assert_eq!(node.log.get(2).unwrap().command, Command::Put { key: s("k"), value: s("v") });
    let reply = handle_raft_message(
        &mut node,
        RaftMessage::AppendEntriesResponse(AppendEntriesResponse::failure(3, s("node3"), 0)),
    );
    assert!(matches!(reply, RaftReply::Acknowledged));
    assert!(node.is_follower());
    assert_eq!(node.current_term(), 3);
}

// ==================== Tick ====================

#[test]
fn tick_plans_heartbeats_and_applying() {
    let mut node = RaftNode::new(s("node1"), vec![s("node2"), s("node3")]);
    node.start_election();
    node.become_leader();
    node.log.append(1, Command::Put { key: s("k"), value: s("v") });
    node.volatile.commit_index = 2;
    let plan = tick(&mut node, true, true);
    assert!(plan.vote_request.is_none());
    assert_eq!(plan.heartbeats.len(), 2);
    assert_eq!(plan.heartbeats[0].0, "node2");
    assert_eq!(plan.heartbeats[1].1.entries.len(), 2);
    assert_eq!(plan.to_apply.len(), 2);
    let plan = tick(&mut node, false, false);
    assert!(plan.heartbeats.is_empty());
    assert!(plan.to_apply.is_empty());
}

#[test]
fn tick_on_fresh_follower_does_nothing() {
    let mut node = RaftNode::new(s("node1"), vec![s("node2")]);
    let plan = tick(&mut node, false, true);
    assert!(plan.vote_request.is_none());
    assert!(plan.heartbeats.is_empty());
    assert!(plan.to_apply.is_empty());
    assert!(node.is_follower());
}

#[test]
fn tick_starts_an_election_once_expired() {
    let mut node = RaftNode::new(s("node1"), vec![s("node2"), s("node3")]);
    assert!(!node.election_due(false));
    assert!(node.election_due(true));
    let plan = tick(&mut node, true, false);
    let req = plan.vote_request.expect("an election starts");
    assert_eq!(req.term, 1);
    assert_eq!(req.candidate_id, "node1");
    assert_eq!((req.last_log_index, req.last_log_term), (0, 0));
    assert!(node.is_candidate());
    assert_eq!(node.current_term(), 1);
    assert_eq!(node.persistent.voted_for, Some(s("node1")));

    node.become_leader();
    assert!(!node.election_due(true));
    let plan = tick(&mut node, true, false);
    assert!(plan.vote_request.is_none());
    assert!(node.is_leader());
    assert_eq!(node.current_term(), 1);
}

// ==================== Timing ====================

#[test]
fn timeouts_fall_in_range() {
    let config = ElectionConfig { min_timeout_ms: 150, max_timeout_ms: 300, heartbeat_interval_ms: 50 };
    assert_eq!(config.timeout_ms_for(7), 157);
    assert_eq!(config.timeout_ms_for(150), 150);
    assert_eq!(config.timeout_ms_for(999_999_999), 150 + 999_999_999 % 150);
    for _ in 0..20 {
        let t = config.random_timeout().as_millis();
        assert!(t >= 150 && t < 300);
    }
    assert_eq!(config.heartbeat_interval(), Duration::from_millis(50));
    let d = ElectionConfig::default();
    assert_eq!((d.min_timeout_ms, d.max_timeout_ms, d.heartbeat_interval_ms), (150, 300, 50));
}

#[test]
fn timer_expires_after_its_timeout() {
    let config = ElectionConfig { min_timeout_ms: 1, max_timeout_ms: 2, heartbeat_interval_ms: 1 };
    let mut timer = ElectionTimer::new(config);
    assert_eq!(timer.timeout_ms, 1);
    assert_eq!(timer.timeout(), Duration::from_millis(1));
    assert!(timer.remaining() <= timer.timeout());
    let start = Instant::now();
    while start.elapsed() < Duration::from_millis(5) {}
    assert!(timer.is_expired());
    assert_eq!(timer.remaining(), Duration::ZERO);
    timer.reset();
    assert_eq!(timer.config.max_timeout_ms, 2);
}

#[test]
fn timer_decides_on_the_elapsed_time() {
    let config = ElectionConfig { min_timeout_ms: 150, max_timeout_ms: 300, heartbeat_interval_ms: 50 };
    let mut timer = ElectionTimer::new(config);
    timer.timeout_ms = 200;
    assert!(!timer.expired_after(0));
    assert!(!timer.expired_after(199_999_999));
    assert!(timer.expired_after(200_000_000));
    assert!(timer.expired_after(u128::MAX));
    assert_eq!(timer.remaining_after(0), 200_000_000);
    assert_eq!(timer.remaining_after(150_500_000), 49_500_000);
    assert_eq!(timer.remaining_after(200_000_000), 0);
    assert_eq!(timer.remaining_after(900_000_000), 0);
    assert!(timer.remaining() <= Duration::from_millis(200));
    assert!(!timer.is_expired());
}

#[test]
fn node_state_names() {
    assert_eq!(NodeState::Follower.to_string(), "Follower");
    assert_eq!(NodeState::Candidate.to_string(), "Candidate");
    assert_eq!(NodeState::Leader.to_string(), "Leader");
}

#[test]
fn request_vote_response_carries_voter() {
    let mut node = RaftNode::new(s("node1"), vec![s("node2")]);
    let req = node.create_request_vote();
    assert_eq!(req.term, 0);
    assert_eq!(req.candidate_id, "node1");
    let mut other = RaftNode::new(s("node2"), vec![s("node1")]);
    let resp = other.handle_request_vote(&req);
    assert_eq!(resp.voter_id, "node2");
    node.start_election();
    assert!(node.is_candidate());
    assert!(!node.is_leader());
}

#[test]
fn only_one_leader_per_term() {
    let mut node1 = RaftNode::new(s("node1"), vec![s("node2"), s("node3")]);
    let mut node2 = RaftNode::new(s("node2"), vec![s("node1"), s("node3")]);
    let mut node3 = RaftNode::new(s("node3"), vec![s("node1"), s("node2")]);
    node1.start_election();
    node3.start_election();
    let from1 = node1.create_request_vote();
    let from3 = node3.create_request_vote();

    let vote_2_for_1 = node2.handle_request_vote(&from1);
    let vote_2_for_3 = node2.handle_request_vote(&from3);
    let vote_1_for_3 = node1.handle_request_vote(&from3);
    let vote_3_for_1 = node3.handle_request_vote(&from1);
    assert!(vote_2_for_1.vote_granted);
    assert!(!vote_2_for_3.vote_granted);
    assert!(!vote_1_for_3.vote_granted);
    assert!(!vote_3_for_1.vote_granted);

    assert!(node1.handle_request_vote_response(&vote_2_for_1));
    assert!(!node3.handle_request_vote_response(&vote_2_for_3));
    assert!(!node3.handle_request_vote_response(&vote_1_for_3));
    assert!(node1.is_leader());
    assert!(!node3.is_leader());
    assert_eq!(node1.current_term(), node3.current_term());
}

#[test]
fn entries_are_applied_once_in_order() {
    let mut node = RaftNode::new(s("node1"), vec![]);
    for i in 0..5 {
        node.log.append(1, Command::Put { key: format!("k{}", i), value: s("v") });
    }
    node.volatile.commit_index = 2;
    let first = node.get_entries_to_apply();
    node.volatile.update_commit_index(5);
    let second = node.get_entries_to_apply();
    let indices: Vec<u64> = first.iter().chain(second.iter()).map(|e| e.index).collect();
    assert_eq!(indices, vec![1, 2, 3, 4, 5]);
    assert!(node.get_entries_to_apply().is_empty());
}
