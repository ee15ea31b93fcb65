use vstd::prelude::*;

use crate::log::LogEntry;
use crate::raft::{LogIndex, NodeId, Term};

verus! {

/// The messages that Raft nodes exchange.
#[derive(Clone, Debug)]
pub enum Message {
    RequestVoteRequest(RequestVoteRequestPayload),
    RequestVoteResponse(RequestVoteResponsePayload),
    AppendEntriesRequest(AppendEntriesRequestPayload),
    AppendEntriesResponse(AppendEntriesResponsePayload),
}

/// Where a message is to be delivered.
#[derive(Clone, Debug)]
pub enum Address {
    Broadcast,
    Node(NodeId),
}

#[derive(Clone, Debug)]
pub struct RequestVoteRequestPayload {
    pub term: Term,
    pub last_log_term: Term,
    pub last_log_index: LogIndex,
    pub source: NodeId,
    pub dest: Address,
}

#[derive(Clone, Debug)]
pub struct RequestVoteResponsePayload {
    pub term: Term,
    pub vote_granted: bool,
    pub source: NodeId,
    pub dest: Address,
}

#[derive(Clone, Debug)]
pub struct AppendEntriesRequestPayload {
    pub term: Term,
    pub prev_log_term: Term,
    pub prev_log_index: LogIndex,
    pub entry: Option<LogEntry>,
    pub commit_index: LogIndex,
    pub source: NodeId,
    pub dest: Address,
}

#[derive(Clone, Debug)]
pub struct AppendEntriesResponsePayload {
    pub term: Term,
    pub success: bool,
    pub match_index: LogIndex,
    pub source: NodeId,
    pub dest: Address,
}

} // verus!
