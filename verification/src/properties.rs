//! Properties of a node's steps that hold across calls.
use vstd::prelude::*;

use crate::log::LogEntry;
use crate::message::{
    Address, AppendEntriesRequestPayload, AppendEntriesResponsePayload, Message,
    RequestVoteRequestPayload, RequestVoteResponsePayload,
};
use crate::raft::{is_quorum, oldest_term, LogIndex, NodeId, RaftView, State, Term};

verus! {

/// The term that message `m` carries.
pub open spec fn term_of(m: Message) -> Term {
    match m {
        Message::RequestVoteRequest(p) => p.term,
        Message::RequestVoteResponse(p) => p.term,
        Message::AppendEntriesRequest(p) => p.term,
        Message::AppendEntriesResponse(p) => p.term,
    }
}

/// On any message the node moves to the newer of its term and the message's
/// term; a message of a newer term makes it a follower that has voted for
/// nobody in that term.
pub proof fn receive_adopts_newer_term(s: RaftView, m: Message)
    ensures
        s.receive_step(m).0.current_term == if term_of(m) > s.current_term {
            term_of(m)
        } else {
            s.current_term
        },
        term_of(m) > s.current_term ==> s.receive_step(m).0.state == State::Follower,
        term_of(m) > s.current_term ==> s.receive_step(m).0.voted_for is None || (
        m is RequestVoteRequest && s.receive_step(m).0.voted_for == Some(
            m->RequestVoteRequest_0.source,
        )),
{
}

/// The term of a node never decreases on receiving a message.
pub proof fn receive_never_decreases_term(s: RaftView, m: Message)
    ensures
        s.receive_step(m).0.current_term >= s.current_term,
{
}

/// A node votes at most once per term: once it has voted, its vote stays
/// the same for as long as its term does.
pub proof fn vote_is_kept_within_term(s: RaftView, m: Message)
    requires
        s.voted_for is Some,
    ensures
        s.receive_step(m).0.current_term == s.current_term ==> s.receive_step(m).0.voted_for
            == s.voted_for,
{
}

/// A node that has voted for `c` in its current term refuses its vote to any
/// other candidate of a term not newer than its own, and keeps its term and
/// its vote.
pub proof fn vote_refused_to_another_candidate(s: RaftView, p: RequestVoteRequestPayload, c: NodeId)
    requires
        s.voted_for == Some(c),
        p.source != c,
        p.term <= s.current_term,
    ensures
        ({
            let (t, r) = s.rv_request_step(p);
            &&& r matches Some(Message::RequestVoteResponse(q)) && !q.vote_granted
            &&& t.voted_for == Some(c)
            &&& t.current_term == s.current_term
        }),
{
}

/// A vote request delivered twice gets the same answer the second time and
/// changes nothing more.
pub proof fn repeated_vote_request_is_idempotent(s: RaftView, p: RequestVoteRequestPayload)
    ensures
        ({
            let (t, r) = s.rv_request_step(p);
            t.rv_request_step(p) == (t, r)
        }),
{
}

/// An append response of an older term leaves the node's term, role and
/// replication indices as they were.
pub proof fn stale_append_response_changes_no_index(s: RaftView, p: AppendEntriesResponsePayload)
    requires
        p.term < s.current_term,
    ensures
        s.ae_response_step(p).current_term == s.current_term,
        s.ae_response_step(p).state == s.state,
        s.ae_response_step(p).next_index == s.next_index,
        s.ae_response_step(p).match_index == s.match_index,
{
}

/// Two quorums of one (finite) configuration share a member.
pub proof fn quorums_intersect(a: Set<NodeId>, b: Set<NodeId>, config: Set<NodeId>)
    requires
        config.finite(),
        a.subset_of(config),
        b.subset_of(config),
        is_quorum(a, config),
        is_quorum(b, config),
    ensures
        exists|n: NodeId| a.contains(n) && b.contains(n),
{
    vstd::set_lib::lemma_len_subset(a, config);
    vstd::set_lib::lemma_len_subset(b, config);
    vstd::set_lib::lemma_len_subset(a + b, config);
    if !(exists|n: NodeId| a.contains(n) && b.contains(n)) {
        assert(a.disjoint(b));
        vstd::set_lib::lemma_set_disjoint_lens(a, b);
        assert(false);
    }
}

/// A set of members that contains a quorum is a quorum.
pub proof fn superset_of_quorum_is_quorum(a: Set<NodeId>, b: Set<NodeId>, config: Set<NodeId>)
    requires
        config.finite(),
        b.subset_of(config),
        a.subset_of(b),
        is_quorum(a, config),
    ensures
        is_quorum(b, config),
{
    vstd::set_lib::lemma_len_subset(b, config);
    vstd::set_lib::lemma_len_subset(a, b);
}

/// A vote is granted only to a candidate of the node's (possibly newly
/// adopted) current term that it has not refused for another candidate: the
/// answer always carries the node's term and is addressed to the candidate; a
/// grant records the candidate as the node's vote; a refusal leaves the vote
/// as it was after adopting the term; and a request of an older term is
/// refused and changes nothing.
pub proof fn vote_granted_only_in_current_term(s: RaftView, p: RequestVoteRequestPayload)
    ensures
        ({
            let (t, r) = s.rv_request_step(p);
            &&& r is Some
            &&& r->Some_0 is RequestVoteResponse
            &&& r->Some_0->RequestVoteResponse_0.term == t.current_term
            &&& r->Some_0->RequestVoteResponse_0.source == s.id
            &&& r->Some_0->RequestVoteResponse_0.dest == Address::Node(p.source)
            &&& t.current_term >= s.current_term
            &&& r->Some_0->RequestVoteResponse_0.vote_granted ==> {
                &&& p.term == t.current_term
                &&& (p.last_log_term > oldest_term(s.log) || (p.last_log_term == oldest_term(s.log)
                    && p.last_log_index >= s.log.len()))
                &&& t.voted_for == Some(p.source)
                &&& p.term == s.current_term ==> (s.voted_for is None || s.voted_for == Some(
                    p.source,
                ))
            }
            &&& !r->Some_0->RequestVoteResponse_0.vote_granted ==> (t.voted_for == s.voted_for
                || (p.term > s.current_term && t.voted_for is None))
            &&& p.term < s.current_term ==> !r->Some_0->RequestVoteResponse_0.vote_granted && t
                == s
        }),
{
}

/// A vote response adds its sender to the granted votes only when it grants
/// the vote, and always to the responders; a node that was not leader
/// becomes leader only as a candidate of the response's term whose granted
/// votes, this one included, form a quorum of its configuration.
pub proof fn only_granted_votes_count(s: RaftView, p: RequestVoteResponsePayload)
    requires
        s.inv(),
    ensures
        ({
            let t = s.rv_response_step(p);
            &&& p.term >= s.current_term ==> t.votes_responded == s.votes_responded.insert(
                p.source,
            )
            &&& p.term >= s.current_term && p.vote_granted ==> t.votes_granted
                == s.votes_granted.insert(p.source)
            &&& !p.vote_granted ==> t.votes_granted == s.votes_granted
            &&& p.term < s.current_term ==> t == s
            &&& t.state == State::Leader && s.state != State::Leader ==> {
                &&& s.state == State::Candidate
                &&& p.term == s.current_term
                &&& is_quorum(t.votes_granted, s.config)
                &&& t.next_index.dom() == s.next_index.dom()
                &&& t.match_index.dom() == s.match_index.dom()
                &&& forall|k: NodeId| #[trigger]
                    t.next_index.contains_key(k) ==> t.next_index[k] == s.log.len() + 1
                &&& forall|k: NodeId| #[trigger]
                    t.match_index.contains_key(k) ==> t.match_index[k] == 0
            }
            &&& !(t.state == State::Leader && s.state != State::Leader) ==> {
                &&& t.next_index == s.next_index
                &&& t.match_index == s.match_index
            }
            &&& t.log == s.log
            &&& t.commit_index == s.commit_index
        }),
{
}

/// A node that acknowledges an append request takes the commit index that
/// the request carries, whatever it held before.
pub proof fn acknowledgement_adopts_leader_commit(s: RaftView, m: AppendEntriesRequestPayload)
    ensures
        ({
            let (t, r) = s.ae_request_step(m);
            (r is Some && r->Some_0 is AppendEntriesResponse
                && r->Some_0->AppendEntriesResponse_0.success) ==> {
                &&& t.commit_index == m.commit_index
                &&& t.state == State::Follower
                &&& t.log == s.log
                &&& t.current_term == m.term
            }
        }),
        ({
            let (t, r) = s.ae_request_step(m);
            !(r is Some && r->Some_0 is AppendEntriesResponse
                && r->Some_0->AppendEntriesResponse_0.success) && t.commit_index
                != s.commit_index ==> s.state == State::Leader && t.state == State::Leader
        }),
{
}

/// An append request changes the log in one of three ways only: not at
/// all; by appending the entry sent, right after the index the request
/// agrees on, when the log ends there; or by dropping the newest entry when
/// the entry at the position sent holds another term. A refusal changes
/// neither the log nor, unless the node leads, the commit index.
pub proof fn append_request_changes_log_at_the_end(s: RaftView, m: AppendEntriesRequestPayload)
    requires
        s.inv(),
    ensures
        ({
            let (t, r) = s.ae_request_step(m);
            &&& t.log == s.log || (m.entry is Some && s.log.len() == m.prev_log_index && t.log
                == s.log.push(m.entry->Some_0)) || (m.entry is Some && m.prev_log_index
                < s.log.len() && s.log[m.prev_log_index as int].term != m.entry->Some_0.term
                && t.log == s.log.drop_last())
            &&& t.log != s.log ==> t.current_term == m.term && (m.prev_log_index == 0 || (
            m.prev_log_index <= s.log.len() && s.log[m.prev_log_index - 1].term
                == m.prev_log_term))
            &&& (r is Some && r->Some_0 is AppendEntriesResponse
                && !r->Some_0->AppendEntriesResponse_0.success) ==> t.log == s.log && (t.state
                != State::Leader ==> t.commit_index == s.commit_index)
        }),
{
}

/// An append response of the node's term moves the sender's indices: an
/// acknowledgement of index `k` sets its match index to `k` and its next
/// index to `k + 1`; a refusal moves its next index one back, never below 1,
/// and keeps its match index. No other node's indices change.
pub proof fn append_response_moves_sender_indices(s: RaftView, p: AppendEntriesResponsePayload)
    requires
        s.inv(),
        s.ae_response_ok(p),
    ensures
        ({
            let t = s.ae_response_step(p);
            &&& forall|k: NodeId|
                k != p.source ==> (#[trigger] t.next_index.contains_key(k) == s.next_index.contains_key(k))
                    && (s.next_index.contains_key(k) ==> t.next_index[k] == s.next_index[k])
            &&& forall|k: NodeId|
                k != p.source ==> (#[trigger] t.match_index.contains_key(k) == s.match_index.contains_key(k))
                    && (s.match_index.contains_key(k) ==> t.match_index[k] == s.match_index[k])
            &&& p.term >= s.current_term && p.success ==> t.next_index[p.source] == p.match_index
                + 1 && t.match_index[p.source] == p.match_index
            &&& p.term >= s.current_term && !p.success ==> {
                &&& t.next_index[p.source] >= 1
                &&& t.next_index[p.source] == if s.next_index[p.source] > 1 {
                    s.next_index[p.source] - 1
                } else {
                    1
                }
                &&& t.match_index == s.match_index
            }
            &&& t.log == s.log
        }),
{
}

/// The append request a leader sends to `dest` starts right after the peer's
/// next index minus one, carries the entry at the peer's next index when the
/// log has one, and a commit index that is the least of the log's length,
/// the peer's next index and the leader's commit index.
pub proof fn append_request_is_bounded_by_peer(s: RaftView, dest: NodeId)
    requires
        s.inv(),
        s.next_index.contains_key(dest),
        s.next_index[dest] <= s.log.len() + 1,
    ensures
        ({
            let m = s.append_entries_message(dest);
            &&& m is AppendEntriesRequest
            &&& {
                let p = m->AppendEntriesRequest_0;
                &&& p.term == s.current_term
                &&& p.source == s.id
                &&& p.prev_log_index + 1 == s.next_index[dest]
                &&& p.prev_log_index > 0 ==> p.prev_log_term == s.log[p.prev_log_index - 1].term
                &&& p.prev_log_index == 0 ==> p.prev_log_term == 0
                &&& p.commit_index <= s.log.len()
                &&& p.commit_index <= s.next_index[dest]
                &&& p.commit_index <= s.commit_index
                &&& (p.commit_index == s.log.len() || p.commit_index == s.next_index[dest]
                    || p.commit_index == s.commit_index)
                &&& s.next_index[dest] <= s.log.len() ==> p.entry == Some(
                    s.log[p.prev_log_index as int],
                )
                &&& s.next_index[dest] > s.log.len() ==> p.entry is None
            }
        }),
{
}

/// An election timeout moves the node to the next term as a candidate that
/// has voted for nobody and counted no response, with its log untouched.
pub proof fn timeout_starts_fresh_election(s: RaftView)
    requires
        s.current_term < usize::MAX,
    ensures
        ({
            let t = s.become_candidate();
            &&& t.current_term == s.current_term + 1
            &&& t.state == State::Candidate
            &&& t.voted_for is None
            &&& t.votes_granted.is_empty()
            &&& t.votes_responded.is_empty()
            &&& t.log == s.log
            &&& t.commit_index == s.commit_index
        }),
{
}

/// A leader never removes or rewrites entries of its log on receiving a
/// message: while it stays leader, its log is unchanged.
pub proof fn leader_log_is_kept(s: RaftView, m: Message)
    requires
        s.state == State::Leader,
    ensures
        s.receive_step(m).0.state == State::Leader ==> s.receive_step(m).0.log == s.log,
{
}

/// Every granted vote that a node has counted comes from a node that it has
/// counted as having responded.
pub proof fn granted_votes_were_responses(s: RaftView, m: Message)
    requires
        s.votes_granted.subset_of(s.votes_responded),
    ensures
        s.receive_step(m).0.votes_granted.subset_of(s.receive_step(m).0.votes_responded),
{
}

/// A node acknowledges an append request only up to an index that its log
/// reaches, where its entry has the term the request names for it.
pub proof fn acknowledgement_matches_log(s: RaftView, m: AppendEntriesRequestPayload)
    requires
        s.inv(),
    ensures
        ({
            let (t, r) = s.ae_request_step(m);
            match r {
                Some(Message::AppendEntriesResponse(p)) => p.success ==> {
                    &&& p.match_index <= t.log.len()
                    &&& (match m.entry {
                        Some(e) => t.log[p.match_index - 1].term == e.term,
                        None => p.match_index > 0 ==> t.log[p.match_index - 1].term
                            == m.prev_log_term,
                    })
                },
                _ => true,
            }
        }),
{
}

/// Receiving a message keeps the state well formed.
pub proof fn receive_preserves_inv(s: RaftView, m: Message)
    requires
        s.inv(),
        s.receive_ok(m),
        s.log.len() + 1 < usize::MAX,
    ensures
        s.receive_step(m).0.inv(),
{
}

proof fn last_quorum_index_is_greatest(s: RaftView, n: nat)
    ensures
        s.last_quorum_index(n) <= n,
        s.last_quorum_index(n) > 0 ==> is_quorum(
            s.agree_set(s.last_quorum_index(n) as int),
            s.config,
        ),
        forall|i: int|
            s.last_quorum_index(n) < i <= n ==> !is_quorum(#[trigger] s.agree_set(i), s.config),
    decreases n,
{
    if n > 0 {
        last_quorum_index_is_greatest(s, (n - 1) as nat);
    }
}

/// A leader only ever commits an entry of its current term, and then the
/// greatest index of its log on which a quorum agrees.
pub proof fn commit_follows_quorum_of_current_term(s: RaftView)
    requires
        s.inv(),
    ensures
        ({
            let t = s.advance_commit_index();
            t.commit_index != s.commit_index ==> {
                &&& 1 <= t.commit_index <= s.log.len()
                &&& s.log[t.commit_index - 1].term == s.current_term
                &&& is_quorum(s.agree_set(t.commit_index as int), s.config)
                &&& forall|i: int|
                    t.commit_index < i <= s.log.len() ==> !is_quorum(
                        #[trigger] s.agree_set(i),
                        s.config,
                    )
            }
        }),
        s.advance_commit_index() == (RaftView {
            commit_index: s.advance_commit_index().commit_index,
            ..s
        }),
{
    last_quorum_index_is_greatest(s, s.log.len());
}

/// Popping the log right after pushing an entry hands that entry back and
/// restores the log.
pub proof fn pop_undoes_push(log: Seq<LogEntry>, e: LogEntry)
    ensures
        log.push(e).len() > 0,
        log.push(e).last() == e,
        log.push(e).drop_last() == log,
{
    assert(log.push(e).drop_last() =~= log);
}

} // verus!
