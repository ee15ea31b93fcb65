use fxhash::FxHashSet;
use rusty_raft::config::Config;
use rusty_raft::impl_network::sharedmemory::SharedMemoryNetwork;
use rusty_raft::log::LogEntry;
use rusty_raft::message::{
    Address, AppendEntriesRequestPayload, AppendEntriesResponsePayload, Message,
    RequestVoteRequestPayload, RequestVoteResponsePayload,
};
use rusty_raft::raft::{NodeId, RaftNode};

fn cluster() -> (RaftNode, RaftNode, RaftNode) {
    let mut config = FxHashSet::<NodeId>::default();
    config.insert(0);
    config.insert(1);
    config.insert(2);
    let mut n0 = RaftNode::new(0);
    let mut n1 = RaftNode::new(1);
    let mut n2 = RaftNode::new(2);
    n0.init(&config);
    n1.init(&config);
    n2.init(&config);
    (n0, n1, n2)
}

/// n0 wins the election of term 1 with the votes of n0 and n1.
fn elect_n0(n0: &mut RaftNode, n1: &mut RaftNode) {
    let rv = n0.timeout();
    let r0 = n0.receive_message(rv.clone()).unwrap();
    let r1 = n1.receive_message(rv).unwrap();
    n0.receive_message(r0);
    n0.receive_message(r1);
    assert!(n0.is_leader());
}

fn rv_request(term: usize, last_log_term: usize, last_log_index: usize, source: usize) -> Message {
    Message::RequestVoteRequest(RequestVoteRequestPayload {
        term,
        last_log_term,
        last_log_index,
        source,
        dest: Address::Broadcast,
    })
}

fn ae_request(
    term: usize,
    prev_log_index: usize,
    prev_log_term: usize,
    entry: Option<LogEntry>,
    commit_index: usize,
    source: usize,
) -> Message {
    Message::AppendEntriesRequest(AppendEntriesRequestPayload {
        term,
        prev_log_term,
        prev_log_index,
        entry,
        commit_index,
        source,
        dest: Address::Broadcast,
    })
}

fn vote_reply(m: Option<Message>) -> RequestVoteResponsePayload {
    match m {
        Some(Message::RequestVoteResponse(p)) => p,
        _ => panic!("expected a vote response"),
    }
}

fn append_reply(m: Option<Message>) -> AppendEntriesResponsePayload {
    match m {
        Some(Message::AppendEntriesResponse(p)) => p,
        _ => panic!("expected an append response"),
    }
}

fn append_request(m: Message) -> AppendEntriesRequestPayload {
    match m {
        Message::AppendEntriesRequest(p) => p,
        _ => panic!("expected an append request"),
    }
}

#[test]
fn new_node_is_a_follower_of_term_zero() {
    let n = RaftNode::new(7);
    assert_eq!(n.id(), 7);
    assert!(n.is_follower());
    assert!(!n.is_candidate());
    assert!(!n.is_leader());
    assert_eq!(n.current_term(), 0);
    assert_eq!(n.commit_index(), 0);
    assert_eq!(n.log().len(), 0);
    assert!(!n.initialized());
}

#[test]
fn init_sets_membership() {
    let (n0, _, _) = cluster();
    assert!(n0.initialized());
    assert!(n0.is_valid_id(&0));
    assert!(n0.is_valid_id(&2));
    assert!(!n0.is_valid_id(&3));
}

#[test]
fn timeout_starts_an_election() {
    let (mut n0, _, _) = cluster();
    let m = n0.timeout();
    assert!(n0.is_candidate());
    assert_eq!(n0.current_term(), 1);
    match m {
        Message::RequestVoteRequest(p) => {
            assert_eq!(p.term, 1);
            assert_eq!(p.last_log_term, 0);
            assert_eq!(p.last_log_index, 0);
            assert_eq!(p.source, 0);
            assert!(matches!(p.dest, Address::Broadcast));
        }
        _ => panic!("expected a vote request"),
    }
    // a second timeout starts another election
    n0.timeout();
    assert_eq!(n0.current_term(), 2);
    assert!(n0.is_candidate());
}

#[test]
fn vote_granted_to_newer_term() {
    let (_, mut n1, _) = cluster();
    let r = vote_reply(n1.receive_message(rv_request(3, 0, 0, 2)));
    assert_eq!(n1.current_term(), 3);
    assert!(n1.is_follower());
    assert!(r.vote_granted);
    assert_eq!(r.term, 3);
    assert_eq!(r.source, 1);
    assert!(matches!(r.dest, Address::Node(2)));
}

#[test]
fn one_vote_per_term() {
    let (_, mut n1, _) = cluster();
    assert!(vote_reply(n1.receive_message(rv_request(1, 0, 0, 0))).vote_granted);
    // another candidate of the same term is refused
    assert!(!vote_reply(n1.receive_message(rv_request(1, 0, 0, 2))).vote_granted);
    // the same candidate asking again is granted again
    assert!(vote_reply(n1.receive_message(rv_request(1, 0, 0, 0))).vote_granted);
    // a newer term frees the vote
    assert!(vote_reply(n1.receive_message(rv_request(2, 0, 0, 2))).vote_granted);
}

#[test]
fn stale_vote_request_is_refused() {
    let (_, mut n1, _) = cluster();
    n1.receive_message(rv_request(4, 0, 0, 2));
    let r = vote_reply(n1.receive_message(rv_request(3, 0, 0, 0)));
    assert!(!r.vote_granted);
    assert_eq!(r.term, 4);
    assert_eq!(n1.current_term(), 4);
}

#[test]
fn vote_refused_to_an_older_log() {
    let (_, mut n1, _) = cluster();
    // n1 gets an entry of term 2
    n1.receive_message(ae_request(2, 0, 0, Some(LogEntry { term: 2, value: 9 }), 0, 0));
    assert_eq!(n1.log().len(), 1);
    // a candidate whose last entry is of term 1 is refused
    let r = vote_reply(n1.receive_message(rv_request(3, 1, 5, 2)));
    assert!(!r.vote_granted);
    // one whose last entry is of term 3 is granted
    let r = vote_reply(n1.receive_message(rv_request(3, 3, 0, 2)));
    assert!(r.vote_granted);
}

#[test]
fn stale_append_request_is_refused() {
    let (_, mut n1, _) = cluster();
    n1.receive_message(rv_request(5, 0, 0, 2));
    let r = append_reply(n1.receive_message(ae_request(4, 0, 0, None, 0, 0)));
    assert!(!r.success);
    assert_eq!(r.match_index, 0);
    assert_eq!(r.term, 5);
    assert!(matches!(r.dest, Address::Node(0)));
    assert_eq!(n1.log().len(), 0);
}

#[test]
fn append_request_that_disagrees_is_refused() {
    let (_, mut n1, _) = cluster();
    let r = append_reply(n1.receive_message(ae_request(1, 3, 1, None, 0, 0)));
    assert!(!r.success);
    assert_eq!(n1.current_term(), 1);
}

#[test]
fn follower_appends_then_acknowledges() {
    let (_, mut n1, _) = cluster();
    let e = LogEntry { term: 1, value: 5 };
    assert!(n1.receive_message(ae_request(1, 0, 0, Some(e), 0, 0)).is_none());
    assert_eq!(n1.log().len(), 1);
    let r = append_reply(n1.receive_message(ae_request(1, 0, 0, Some(e), 1, 0)));
    assert!(r.success);
    assert_eq!(r.match_index, 1);
    assert_eq!(n1.commit_index(), 1);
    // a heartbeat with no entry acknowledges the point of agreement
    let r = append_reply(n1.receive_message(ae_request(1, 1, 1, None, 1, 0)));
    assert!(r.success);
    assert_eq!(r.match_index, 1);
}

#[test]
fn conflicting_entry_is_dropped() {
    let (_, mut n1, _) = cluster();
    n1.receive_message(ae_request(1, 0, 0, Some(LogEntry { term: 1, value: 5 }), 0, 0));
    assert_eq!(n1.log().lookup(1).term, 1);
    // the leader of term 2 has another entry at index 1
    let e2 = LogEntry { term: 2, value: 6 };
    assert!(n1.receive_message(ae_request(2, 0, 0, Some(e2), 0, 2)).is_none());
    assert_eq!(n1.log().len(), 0);
    assert!(n1.receive_message(ae_request(2, 0, 0, Some(e2), 0, 2)).is_none());
    assert_eq!(n1.log().len(), 1);
    assert_eq!(n1.log().lookup(1), e2);
}

#[test]
fn candidate_steps_down_on_append_of_its_term() {
    let (mut n0, _, _) = cluster();
    n0.timeout();
    let r = n0.receive_message(ae_request(1, 0, 0, None, 0, 2));
    assert!(r.is_none());
    assert!(n0.is_follower());
    assert_eq!(n0.current_term(), 1);
}

#[test]
fn newer_term_turns_leader_into_follower() {
    let (mut n0, mut n1, _) = cluster();
    elect_n0(&mut n0, &mut n1);
    let r = vote_reply(n0.receive_message(rv_request(2, 0, 0, 1)));
    assert!(r.vote_granted);
    assert!(n0.is_follower());
    assert_eq!(n0.current_term(), 2);
}

#[test]
fn leader_keeps_its_log_on_messages() {
    let (mut n0, mut n1, _) = cluster();
    elect_n0(&mut n0, &mut n1);
    n0.client_request(3);
    // an append request of its own term leaves its log alone
    let r = n0.receive_message(ae_request(1, 0, 0, Some(LogEntry { term: 1, value: 99 }), 0, 2));
    assert!(r.is_none());
    assert!(n0.is_leader());
    assert_eq!(n0.log().len(), 1);
    assert_eq!(n0.log().lookup(1).value, 3);
}

#[test]
fn leader_requests_follow_next_index() {
    let (mut n0, mut n1, _) = cluster();
    elect_n0(&mut n0, &mut n1);
    n0.client_request(10);
    n0.client_request(11);
    // next index is 1 (the log was empty at the election): the first entry is sent
    let p = append_request(n0.append_entries(&1));
    assert_eq!(p.term, 1);
    assert_eq!(p.prev_log_index, 0);
    assert_eq!(p.prev_log_term, 0);
    assert_eq!(p.entry, Some(LogEntry { term: 1, value: 10 }));
    assert_eq!(p.commit_index, 0);
    assert_eq!(p.source, 0);
    // an acknowledgement of index 1 moves the next index to 2
    n0.receive_message(Message::AppendEntriesResponse(AppendEntriesResponsePayload {
        term: 1,
        success: true,
        match_index: 1,
        source: 1,
        dest: Address::Node(0),
    }));
    assert_eq!(n0.commit_index(), 1);
    let p = append_request(n0.append_entries(&1));
    assert_eq!(p.prev_log_index, 1);
    assert_eq!(p.prev_log_term, 1);
    assert_eq!(p.entry, Some(LogEntry { term: 1, value: 11 }));
    assert_eq!(p.commit_index, 1);
    // a refusal moves it back to 1
    n0.receive_message(Message::AppendEntriesResponse(AppendEntriesResponsePayload {
        term: 1,
        success: false,
        match_index: 0,
        source: 1,
        dest: Address::Node(0),
    }));
    let p = append_request(n0.append_entries(&1));
    assert_eq!(p.prev_log_index, 0);
    // and not below 1
    n0.receive_message(Message::AppendEntriesResponse(AppendEntriesResponsePayload {
        term: 1,
        success: false,
        match_index: 0,
        source: 1,
        dest: Address::Node(0),
    }));
    let p = append_request(n0.append_entries(&1));
    assert_eq!(p.prev_log_index, 0);
    assert_eq!(p.entry, Some(LogEntry { term: 1, value: 10 }));
}

#[test]
fn leader_commits_only_entries_of_its_term() {
    let (mut n0, mut n1, mut n2) = cluster();
    elect_n0(&mut n0, &mut n1);
    n0.client_request(7);
    // n0 restarts and wins term 2 with the votes of n1 and n2
    n0.restart();
    assert!(n0.is_follower());
    assert_eq!(n0.current_term(), 1);
    assert_eq!(n0.log().len(), 1);
    let rv = n0.timeout();
    assert_eq!(n0.current_term(), 2);
    let r1 = n1.receive_message(rv.clone()).unwrap();
    let r2 = n2.receive_message(rv).unwrap();
    n0.receive_message(r1);
    n0.receive_message(r2);
    assert!(n0.is_leader());
    // n1's log is empty: it refuses the first heartbeat
    let refusal = n1.receive_message(n0.append_entries(&1)).unwrap();
    n0.receive_message(refusal);
    // then takes the entry of term 1 and acknowledges it
    assert!(n1.receive_message(n0.append_entries(&1)).is_none());
    let ack = n1.receive_message(n0.append_entries(&1)).unwrap();
    n0.receive_message(ack);
    // a quorum holds index 1, but it is of term 1: nothing is committed
    assert_eq!(n0.commit_index(), 0);
    // an entry of term 2 replicated on n1 commits both
    n0.client_request(8);
    assert!(n1.receive_message(n0.append_entries(&1)).is_none());
    let ack = n1.receive_message(n0.append_entries(&1)).unwrap();
    assert_eq!(append_reply(Some(ack.clone())).match_index, 2);
    n0.receive_message(ack);
    assert_eq!(n0.commit_index(), 2);
}

#[test]
fn restart_keeps_term_and_log() {
    let (mut n0, mut n1, _) = cluster();
    elect_n0(&mut n0, &mut n1);
    n0.client_request(1);
    n0.restart();
    assert!(n0.is_follower());
    assert_eq!(n0.current_term(), 1);
    assert_eq!(n0.commit_index(), 0);
    assert_eq!(n0.log().lookup(1), LogEntry { term: 1, value: 1 });
}

#[test]
fn client_request_appends_in_current_term() {
    let (mut n0, mut n1, _) = cluster();
    elect_n0(&mut n0, &mut n1);
    n0.client_request(42);
    assert_eq!(n0.log().len(), 1);
    assert_eq!(n0.log().lookup(1), LogEntry { term: 1, value: 42 });
}

#[test]
fn request_vote_carries_last_term() {
    let (mut n0, mut n1, _) = cluster();
    elect_n0(&mut n0, &mut n1);
    n0.client_request(1);
    n0.restart();
    n0.timeout();
    match n0.request_vote() {
        Message::RequestVoteRequest(p) => {
            assert_eq!(p.term, 2);
            assert_eq!(p.last_log_term, 1);
            assert_eq!(p.last_log_index, 0);
        }
        _ => panic!("expected a vote request"),
    }
}

#[test]
fn term_never_decreases() {
    let (_, mut n1, _) = cluster();
    n1.receive_message(rv_request(6, 0, 0, 0));
    n1.receive_message(rv_request(2, 0, 0, 2));
    n1.receive_message(ae_request(1, 0, 0, None, 0, 0));
    assert_eq!(n1.current_term(), 6);
}

#[test]
fn config_and_network_construct() {
    let c = Config::new(vec![(0, String::from("a")), (1, String::from("b"))]);
    let _copy = c.clone();
    let _net = SharedMemoryNetwork::new();
}

#[test]
fn reported_last_log_term_is_that_of_the_oldest_entry() {
    let (_, mut n1, _) = cluster();
    n1.receive_message(ae_request(1, 0, 0, Some(LogEntry { term: 1, value: 5 }), 0, 0));
    n1.receive_message(ae_request(2, 1, 1, Some(LogEntry { term: 2, value: 6 }), 0, 2));
    assert_eq!(n1.log().len(), 2);
    assert_eq!(n1.log().lookup(2).term, 2);
    match n1.timeout() {
        Message::RequestVoteRequest(p) => {
            assert_eq!(p.term, 3);
            assert_eq!(p.last_log_term, 1);
        }
        _ => panic!("expected a vote request"),
    }
    // a candidate reporting last log term 1 and index 2 gets the vote of a
    // node whose oldest entry is of term 1 and whose log has length 2
    let (_, mut n2, _) = cluster();
    n2.receive_message(ae_request(1, 0, 0, Some(LogEntry { term: 1, value: 5 }), 0, 0));
    n2.receive_message(ae_request(2, 1, 1, Some(LogEntry { term: 2, value: 6 }), 0, 0));
    assert!(vote_reply(n2.receive_message(rv_request(3, 1, 2, 1))).vote_granted);
}

#[test]
fn repeated_vote_request_gets_same_answer() {
    let (_, mut n1, _) = cluster();
    let a = vote_reply(n1.receive_message(rv_request(2, 0, 0, 0)));
    let b = vote_reply(n1.receive_message(rv_request(2, 0, 0, 0)));
    assert_eq!(a.vote_granted, b.vote_granted);
    assert_eq!(a.term, b.term);
    assert_eq!(n1.current_term(), 2);
}

#[test]
fn stale_append_response_changes_no_index() {
    let (mut n0, mut n1, _) = cluster();
    elect_n0(&mut n0, &mut n1);
    n0.client_request(1);
    n0.receive_message(Message::AppendEntriesResponse(AppendEntriesResponsePayload {
        term: 0,
        success: true,
        match_index: 1,
        source: 1,
        dest: Address::Node(0),
    }));
    assert!(n0.is_leader());
    assert_eq!(n0.current_term(), 1);
    assert_eq!(n0.commit_index(), 0);
    let p = append_request(n0.append_entries(&1));
    assert_eq!(p.prev_log_index, 0);
}
