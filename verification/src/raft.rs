use vstd::prelude::*;

use fxhash::{FxHashMap, FxHashSet};

use crate::fxcollections::{
    get_and_unwrap, map_insert, map_keys, set_clone, set_contains, set_elements, set_insert,
    set_len,
};
use crate::log::{Log, LogEntry};
use crate::properties::{append_request_is_bounded_by_peer, receive_adopts_newer_term, term_of};
use crate::message::{
    Address, AppendEntriesRequestPayload, AppendEntriesResponsePayload, Message,
    RequestVoteRequestPayload, RequestVoteResponsePayload,
};

verus! {

/// Identifier of a node of the cluster.
pub type NodeId = usize;

/// A Raft term.
pub type Term = usize;

/// A 1-based position in the replicated log.
pub type LogIndex = usize;

/// The members of the cluster.
pub type Config = FxHashSet<NodeId>;

/// A value proposed by a client.
pub type Value = usize;

/// The role a node plays in its current term.
#[derive(PartialEq, Eq, Structural, Clone, Copy, Debug)]
pub enum State {
    Follower,
    Candidate,
    Leader,
}

/// A Raft node.
pub struct RaftNode {
    id: NodeId,
    log: Log,
    state: State,
    current_term: Term,
    voted_for: Option<NodeId>,
    commit_index: LogIndex,
    votes_responded: FxHashSet<NodeId>,
    votes_granted: FxHashSet<NodeId>,
    next_index: FxHashMap<NodeId, LogIndex>,
    match_index: FxHashMap<NodeId, LogIndex>,
    config: Config,
    // The node has executed `init`.
    initialized: bool,
}

/// The abstract state of a node: its fields, with the log as a sequence of
/// entries (oldest first) and the sets and maps as mathematical ones.
#[verifier::ext_equal]
pub struct RaftView {
    pub id: NodeId,
    pub log: Seq<LogEntry>,
    pub state: State,
    pub current_term: Term,
    pub voted_for: Option<NodeId>,
    pub commit_index: LogIndex,
    pub votes_responded: Set<NodeId>,
    pub votes_granted: Set<NodeId>,
    pub next_index: Map<NodeId, LogIndex>,
    pub match_index: Map<NodeId, LogIndex>,
    pub config: Set<NodeId>,
    pub initialized: bool,
}

/// A map of indices records an entry for each member of the configuration
/// (counted by size).
pub open spec fn is_initialized(map: Map<NodeId, LogIndex>, config: Set<NodeId>) -> bool {
    map.len() == config.len()
}

/// The term that a node reports as its last log term: that of the entry
/// `len - 1` steps back from the newest, which is the oldest entry of the
/// log (not its newest), or 0 for an empty log.
pub open spec fn oldest_term(log: Seq<LogEntry>) -> Term {
    if log.len() > 0 {
        log[0].term
    } else {
        0
    }
}

/// `node_set` holds a strict majority of the members of `config`.
pub open spec fn is_quorum(node_set: Set<NodeId>, config: Set<NodeId>) -> bool {
    node_set.len() > config.len() / 2
}

/// `m` with every key mapped to `v`.
pub open spec fn fill(m: Map<NodeId, LogIndex>, v: LogIndex) -> Map<NodeId, LogIndex> {
    Map::new(|k: NodeId| m.dom().contains(k), |k: NodeId| v)
}

/// `m` with every member of `keys` mapped to `v`.
pub open spec fn set_all(m: Map<NodeId, LogIndex>, keys: Set<NodeId>, v: LogIndex) -> Map<
    NodeId,
    LogIndex,
> {
    m.union_prefer_right(Map::new(|k: NodeId| keys.contains(k), |k: NodeId| v))
}

pub open spec fn min(a: int, b: int) -> int {
    if a <= b {
        a
    } else {
        b
    }
}

impl RaftView {
    /// What every reachable state satisfies.
    pub open spec fn inv(self) -> bool {
        &&& self.log.len() < usize::MAX
        &&& forall|k: NodeId| #[trigger] self.next_index.contains_key(k) ==> self.next_index[k] >= 1
    }

    /// The state of a freshly created node.
    pub open spec fn initial(id: NodeId) -> RaftView {
        RaftView {
            id,
            log: Seq::empty(),
            state: State::Follower,
            current_term: 0,
            voted_for: None,
            commit_index: 0,
            votes_responded: Set::empty(),
            votes_granted: Set::empty(),
            next_index: Map::empty(),
            match_index: Map::empty(),
            config: Set::empty(),
            initialized: false,
        }
    }

    /// Moves to term `new_term` as a follower that has voted for nobody,
    /// when `new_term` is newer than the current term.
    pub open spec fn update_term(self, new_term: Term) -> RaftView {
        if new_term > self.current_term {
            RaftView { current_term: new_term, state: State::Follower, voted_for: None, ..self }
        } else {
            self
        }
    }

    /// Starts an election: a new term, as candidate, with no votes.
    pub open spec fn become_candidate(self) -> RaftView {
        RaftView {
            state: State::Candidate,
            current_term: (self.current_term + 1) as Term,
            voted_for: None,
            votes_responded: Set::empty(),
            votes_granted: Set::empty(),
            ..self
        }
    }

    /// A candidate whose granted votes form a quorum becomes leader; it then
    /// expects every peer to need the entry after its log, and knows of no
    /// replicated entry.
    pub open spec fn become_leader(self) -> RaftView {
        if self.state == State::Candidate && is_quorum(self.votes_granted, self.config) {
            RaftView {
                state: State::Leader,
                next_index: fill(self.next_index, (self.log.len() + 1) as LogIndex),
                match_index: fill(self.match_index, 0),
                ..self
            }
        } else {
            self
        }
    }

    /// The node itself and every node known to hold the log up to `idx`.
    pub open spec fn agree_set(self, idx: int) -> Set<NodeId> {
        Set::new(
            |n: NodeId|
                n == self.id || (self.match_index.contains_key(n) && self.match_index[n] >= idx),
        )
    }

    /// The largest index among `1..=n` whose agree set is a quorum, or 0.
    pub open spec fn last_quorum_index(self, n: nat) -> nat
        decreases n,
    {
        if n == 0 {
            0
        } else if is_quorum(self.agree_set(n as int), self.config) {
            n
        } else {
            self.last_quorum_index((n - 1) as nat)
        }
    }

    /// A leader commits the largest index agreed by a quorum, provided that
    /// entry was created in its current term.
    pub open spec fn advance_commit_index(self) -> RaftView {
        let max = self.last_quorum_index(self.log.len());
        if max > 0 && self.log[max - 1].term == self.current_term {
            RaftView { commit_index: max as LogIndex, ..self }
        } else {
            self
        }
    }

    /// Counting agreement is defined: every node agreeing on an entry is a
    /// member of the configuration.
    pub open spec fn agreement_in_config(self) -> bool {
        self.log.len() > 0 ==> self.agree_set(1).subset_of(self.config)
    }

    /// The vote request a candidate broadcasts.
    pub open spec fn request_vote_message(self) -> Message {
        Message::RequestVoteRequest(
            RequestVoteRequestPayload {
                term: self.current_term,
                last_log_term: oldest_term(self.log),
                last_log_index: 0,
                dest: Address::Broadcast,
                source: self.id,
            },
        )
    }

    /// The append request a leader sends towards `dest`: the entry at the
    /// peer's next index when the log holds one, with the entry before it as
    /// the point of agreement.
    pub open spec fn append_entries_message(self, dest: NodeId) -> Message {
        let next = self.next_index[dest];
        let prev = next - 1;
        Message::AppendEntriesRequest(
            AppendEntriesRequestPayload {
                term: self.current_term,
                prev_log_term: if prev > 0 {
                    self.log[prev - 1].term
                } else {
                    0
                },
                prev_log_index: prev as LogIndex,
                entry: if next <= self.log.len() {
                    Some(self.log[next - 1])
                } else {
                    None
                },
                commit_index: min(min(self.log.len() as int, next as int), self.commit_index as int)
                    as LogIndex,
                dest: Address::Broadcast,
                source: self.id,
            },
        )
    }

    /// The answer to a vote request: after catching up with the request's
    /// term, the node grants its vote when the request is of its current
    /// term, the candidate's reported last log term and index are at least
    /// those the node itself reports (`oldest_term` of its log, and its log
    /// length), and it has voted for nobody else in this term.
    pub open spec fn rv_request_step(self, m: RequestVoteRequestPayload) -> (RaftView, Option<
        Message,
    >) {
        let s = self.update_term(m.term);
        let log_ok = m.last_log_term > oldest_term(s.log) || (m.last_log_term == oldest_term(s.log)
            && m.last_log_index >= s.log.len());
        let grant = m.term == s.current_term && log_ok && (s.voted_for is None || s.voted_for
            == Some(m.source));
        (
            if grant {
                RaftView { voted_for: Some(m.source), ..s }
            } else {
                s
            },
            Some(
                Message::RequestVoteResponse(
                    RequestVoteResponsePayload {
                        term: s.current_term,
                        vote_granted: grant,
                        source: s.id,
                        dest: Address::Node(m.source),
                    },
                ),
            ),
        )
    }

    /// Counting a vote of the current term: the sender has responded, and
    /// has granted its vote when the response says so.
    pub open spec fn count_vote(self, m: RequestVoteResponsePayload) -> RaftView {
        RaftView {
            votes_responded: self.votes_responded.insert(m.source),
            votes_granted: if m.vote_granted {
                self.votes_granted.insert(m.source)
            } else {
                self.votes_granted
            },
            ..self
        }
    }

    /// A vote response of the current term is counted, after which a
    /// candidate with a quorum of granted votes becomes leader.
    pub open spec fn rv_response_step(self, m: RequestVoteResponsePayload) -> RaftView {
        let s = self.update_term(m.term);
        if m.term == s.current_term {
            s.count_vote(m).become_leader()
        } else {
            s
        }
    }

    /// A vote response can be handled: one of the current term reaches a
    /// candidate or a leader, and a candidate's granted votes come from
    /// members of the configuration.
    pub open spec fn rv_response_ok(self, m: RequestVoteResponsePayload) -> bool {
        let s = self.update_term(m.term);
        m.term == s.current_term ==> {
            &&& s.state != State::Follower
            &&& s.state == State::Candidate ==> s.count_vote(m).votes_granted.subset_of(s.config)
        }
    }

    /// The reply to an append request.
    pub open spec fn ae_reply(self, dest: NodeId, success: bool, match_index: LogIndex) -> Option<
        Message,
    > {
        Some(
            Message::AppendEntriesResponse(
                AppendEntriesResponsePayload {
                    term: self.current_term,
                    success,
                    match_index,
                    source: self.id,
                    dest: Address::Node(dest),
                },
            ),
        )
    }

    /// The request agrees with the log at the entry before the one it carries.
    pub open spec fn log_ok(self, m: AppendEntriesRequestPayload) -> bool {
        m.prev_log_index == 0 || (m.prev_log_index <= self.log.len() && m.prev_log_term
            == self.log[m.prev_log_index - 1].term)
    }

    /// An append request, before a leader recounts agreement: a candidate of
    /// the request's term steps down; a stale request, or one that disagrees
    /// with a follower's log, is refused; a follower whose log agrees either
    /// acknowledges the entry it already holds (taking the leader's commit
    /// index), drops its newest entry when that conflicts with the one sent,
    /// or appends the entry sent.
    pub open spec fn ae_request_update(self, m: AppendEntriesRequestPayload) -> (RaftView, Option<
        Message,
    >) {
        let s = self.update_term(m.term);
        if m.term == s.current_term && s.state == State::Candidate {
            (RaftView { state: State::Follower, ..s }, None)
        } else if m.term < s.current_term || (s.state == State::Follower && !s.log_ok(m)) {
            (s, s.ae_reply(m.source, false, 0))
        } else if s.state == State::Follower {
            match m.entry {
                None => (
                    RaftView { commit_index: m.commit_index, ..s },
                    s.ae_reply(m.source, true, m.prev_log_index),
                ),
                Some(e) => if m.prev_log_index < s.log.len() {
                    if s.log[m.prev_log_index as int].term == e.term {
                        (
                            RaftView { commit_index: m.commit_index, ..s },
                            s.ae_reply(m.source, true, (m.prev_log_index + 1) as LogIndex),
                        )
                    } else {
                        (RaftView { log: s.log.drop_last(), ..s }, None)
                    }
                } else {
                    (RaftView { log: s.log.push(e), ..s }, None)
                },
            }
        } else {
            (s, None)
        }
    }

    /// An append request, followed by a leader's recount of agreement.
    pub open spec fn ae_request_step(self, m: AppendEntriesRequestPayload) -> (RaftView, Option<
        Message,
    >) {
        let (s, r) = self.ae_request_update(m);
        (
            if s.state == State::Leader {
                s.advance_commit_index()
            } else {
                s
            },
            r,
        )
    }

    /// An append request can be handled: a leader that receives it counts
    /// agreement among members only.
    pub open spec fn ae_request_ok(self, m: AppendEntriesRequestPayload) -> bool {
        let s = self.ae_request_update(m).0;
        s.state == State::Leader ==> s.agreement_in_config()
    }

    /// An append response of the current term: on success the sender's next
    /// and match indices follow the index it acknowledged; on failure its
    /// next index moves one back, but not below 1.
    pub open spec fn ae_response_update(self, m: AppendEntriesResponsePayload) -> RaftView {
        let s = self.update_term(m.term);
        if m.term == s.current_term {
            if m.success {
                RaftView {
                    next_index: s.next_index.insert(m.source, (m.match_index + 1) as LogIndex),
                    match_index: s.match_index.insert(m.source, m.match_index),
                    ..s
                }
            } else {
                let back = s.next_index[m.source] - 1;
                RaftView {
                    next_index: s.next_index.insert(
                        m.source,
                        if back > 1 {
                            back as LogIndex
                        } else {
                            1
                        },
                    ),
                    ..s
                }
            }
        } else {
            s
        }
    }

    /// An append response, followed by a leader's recount of agreement.
    pub open spec fn ae_response_step(self, m: AppendEntriesResponsePayload) -> RaftView {
        let s = self.ae_response_update(m);
        if s.state == State::Leader {
            s.advance_commit_index()
        } else {
            s
        }
    }

    /// An append response can be handled: an acknowledged index leaves room
    /// for the next one, a refusal comes from a node with a next index, and
    /// a leader counts agreement among members only.
    pub open spec fn ae_response_ok(self, m: AppendEntriesResponsePayload) -> bool {
        let s = self.update_term(m.term);
        &&& m.term == s.current_term && m.success ==> m.match_index < usize::MAX
        &&& m.term == s.current_term && !m.success ==> s.next_index.contains_key(m.source)
        &&& self.ae_response_update(m).state == State::Leader ==> self.ae_response_update(
            m,
        ).agreement_in_config()
    }

    /// The node's next state and reply on receiving `m`.
    pub open spec fn receive_step(self, m: Message) -> (RaftView, Option<Message>) {
        match m {
            Message::RequestVoteRequest(p) => self.rv_request_step(p),
            Message::RequestVoteResponse(p) => (self.rv_response_step(p), None),
            Message::AppendEntriesRequest(p) => self.ae_request_step(p),
            Message::AppendEntriesResponse(p) => (self.ae_response_step(p), None),
        }
    }

    /// The node can handle `m` without failing.
    pub open spec fn receive_ok(self, m: Message) -> bool {
        match m {
            Message::RequestVoteRequest(_) => true,
            Message::RequestVoteResponse(p) => self.rv_response_ok(p),
            Message::AppendEntriesRequest(p) => self.ae_request_ok(p),
            Message::AppendEntriesResponse(p) => self.ae_response_ok(p),
        }
    }
}

impl View for RaftNode {
    type V = RaftView;

    closed spec fn view(&self) -> RaftView {
        RaftView {
            id: self.id,
            log: self.log@,
            state: self.state,
            current_term: self.current_term,
            voted_for: self.voted_for,
            commit_index: self.commit_index,
            votes_responded: self.votes_responded@,
            votes_granted: self.votes_granted@,
            next_index: self.next_index@,
            match_index: self.match_index@,
            config: self.config@,
            initialized: self.initialized,
        }
    }
}

/// Maps every key of `map` to `v`.
fn fill_values(map: &mut FxHashMap<NodeId, LogIndex>, v: LogIndex)
    ensures
        final(map)@ == fill(old(map)@, v),
{
    let keys = map_keys(map);
    let ghost old_map = map@;
    let mut i: usize = 0;
    while i < keys.len()
        invariant
            0 <= i <= keys@.len(),
            keys@.to_set() == old_map.dom(),
            map@.dom() == old_map.dom(),
            forall|j: int| 0 <= j < i ==> #[trigger] map@[keys@[j]] == v,
        decreases keys@.len() - i,
    {
        let k: NodeId = keys[i];
        proof {
            assert(keys@.to_set().contains(keys@[i as int]));
        }
        map_insert(map, k, v);
        assert(map@.dom() =~= old_map.dom());
        i = i + 1;
    }
    assert forall|k: NodeId| #[trigger] map@.contains_key(k) implies map@[k] == v by {
        assert(keys@.to_set().contains(k));
        let j: int = choose|j: int| 0 <= j < keys@.len() && keys@[j] == k;
        assert(map@[keys@[j]] == v);
    }
    assert(map@ =~= fill(old_map, v));
}

impl RaftNode {
    pub fn new(id: NodeId) -> (node: Self)
        ensures
            node@ == RaftView::initial(id),
            node@.inv(),
    {
        Self {
            id,
            log: Log::new(),
            commit_index: 0,
            state: State::Follower,
            current_term: 0,
            voted_for: None,
            votes_responded: FxHashSet::default(),
            votes_granted: FxHashSet::default(),
            next_index: FxHashMap::default(),
            match_index: FxHashMap::default(),
            config: FxHashSet::default(),
            initialized: false,
        }
    }

    /// Joins the cluster `config`: every member gets next index 1 and match
    /// index 0.
    pub fn init(&mut self, config: &Config)
        requires
            old(self)@.inv(),
        ensures
            final(self)@ == (RaftView {
                config: config@,
                next_index: set_all(old(self)@.next_index, config@, 1),
                match_index: set_all(old(self)@.match_index, config@, 0),
                initialized: true,
                ..old(self)@
            }),
            final(self)@.inv(),
            old(self)@.next_index.dom().subset_of(config@) ==> is_initialized(
                final(self)@.next_index,
                final(self)@.config,
            ),
            old(self)@.match_index.dom().subset_of(config@) ==> is_initialized(
                final(self)@.match_index,
                final(self)@.config,
            ),
    {
        self.config = set_clone(config);
        let members = set_elements(&self.config);
        let ghost old_next = self.next_index@;
        let ghost old_match = self.match_index@;
        let ghost pre = self@;
        let mut i: usize = 0;
        while i < members.len()
            invariant
                0 <= i <= members@.len(),
                self@ == (RaftView {
                    next_index: self.next_index@,
                    match_index: self.match_index@,
                    ..pre
                }),
                members@.to_set() == config@,
                self.next_index@ == set_all(old_next, members@.subrange(0, i as int).to_set(), 1),
                self.match_index@ == set_all(old_match, members@.subrange(0, i as int).to_set(), 0),
            decreases members@.len() - i,
        {
            let nid: NodeId = members[i];
            map_insert(&mut self.next_index, nid, 1);
            map_insert(&mut self.match_index, nid, 0);
            proof {
                assert(members@.subrange(0, i + 1) == members@.subrange(0, i as int).push(nid));
                members@.subrange(0, i as int).lemma_push_to_set_commute(nid);
                assert(members@.subrange(0, i + 1).to_set() =~= members@.subrange(
                    0,
                    i as int,
                ).to_set().insert(nid));
                assert(self.next_index@ =~= set_all(
                    old_next,
                    members@.subrange(0, i + 1).to_set(),
                    1,
                ));
                assert(self.match_index@ =~= set_all(
                    old_match,
                    members@.subrange(0, i + 1).to_set(),
                    0,
                ));
            }
            i = i + 1;
        }
        proof {
            assert(members@.subrange(0, members@.len() as int) == members@);
        }
        self.initialized = true;
        proof {
            assert forall|k: NodeId| #[trigger] self.next_index@.contains_key(k) implies self.next_index@[k] >= 1 by {
                if !config@.contains(k) {
                    assert(old_next.contains_key(k));
                }
            }
            if old_next.dom().subset_of(config@) {
                assert(self.next_index@.dom() =~= config@);
            }
            if old_match.dom().subset_of(config@) {
                assert(self.match_index@.dom() =~= config@);
            }
        }
    }

    pub fn receive_message(&mut self, m: Message) -> (r: Option<Message>)
        requires
            old(self)@.inv(),
            old(self)@.initialized,
            old(self)@.log.len() + 1 < usize::MAX,
            old(self)@.receive_ok(m),
        ensures
            final(self)@ == old(self)@.receive_step(m).0,
            r == old(self)@.receive_step(m).1,
            final(self)@.inv(),
            final(self)@.current_term == if term_of(m) > old(self)@.current_term {
                term_of(m)
            } else {
                old(self)@.current_term
            },
            term_of(m) > old(self)@.current_term ==> final(self)@.state == State::Follower,
    {
        proof {
            receive_adopts_newer_term(old(self)@, m);
        }
        let mut result = None;
        match m {
            Message::RequestVoteRequest(payload) => {
                result = self.handle_requestvoterequest(payload);
            },
            Message::RequestVoteResponse(payload) => {
                self.handle_requestvoteresponse(payload);
            },
            Message::AppendEntriesRequest(payload) => {
                result = self.handle_appendentriesrequest(payload);
            },
            Message::AppendEntriesResponse(payload) => {
                self.handle_appendentriesresponse(payload);
            },
        }
        result
    }

    fn handle_requestvoterequest(&mut self, m: RequestVoteRequestPayload) -> (r: Option<Message>)
        requires
            old(self)@.inv(),
        ensures
            final(self)@ == old(self)@.rv_request_step(m).0,
            r == old(self)@.rv_request_step(m).1,
            final(self)@.inv(),
    {
        self.update_term(m.term);
        let mut result = None;
        if m.term <= self.current_term {
            let last: Term = Self::last_term(&self.log);
            let log_ok = m.last_log_term > last || (m.last_log_term == last && m.last_log_index
                >= self.log.len());
            let grant_vote = m.term == self.current_term && log_ok && (matches!(self.voted_for, None)
                || self.voted_for.unwrap() == m.source);
            if grant_vote {
                self.voted_for = Some(m.source);
            }
            result = Some(
                Message::RequestVoteResponse(
                    RequestVoteResponsePayload {
                        term: self.current_term,
                        vote_granted: grant_vote,
                        source: self.id,
                        dest: Address::Node(m.source),
                    },
                ),
            );
        }
        result
    }

    fn handle_requestvoteresponse(&mut self, m: RequestVoteResponsePayload)
        requires
            old(self)@.inv(),
            old(self)@.rv_response_ok(m),
        ensures
            final(self)@ == old(self)@.rv_response_step(m),
            final(self)@.inv(),
    {
        self.update_term(m.term);
        if m.term == self.current_term {
            set_insert(&mut self.votes_responded, m.source);
            if m.vote_granted {
                set_insert(&mut self.votes_granted, m.source);
            }
            self.become_leader();
        }
    }

    fn handle_appendentriesrequest(&mut self, m: AppendEntriesRequestPayload) -> (r: Option<
        Message,
    >)
        requires
            old(self)@.inv(),
            old(self)@.log.len() + 1 < usize::MAX,
            old(self)@.ae_request_ok(m),
        ensures
            final(self)@ == old(self)@.ae_request_step(m).0,
            r == old(self)@.ae_request_step(m).1,
            final(self)@.inv(),
    {
        let mut result = None;
        self.update_term(m.term);
        if m.term <= self.current_term {
            let log_ok = m.prev_log_index == 0 || (m.prev_log_index > 0 && m.prev_log_index
                <= self.log.len() && m.prev_log_term == self.log.lookup(m.prev_log_index).term);
            let reject_append = m.term < self.current_term || (m.term == self.current_term
                && self.is_follower() && !log_ok);
            let accept_append = m.term == self.current_term && self.is_follower() && log_ok;
            if m.term == self.current_term && self.is_candidate() {
                // return to follower state
                self.state = State::Follower;
            } else if reject_append {
                result = Some(
                    Message::AppendEntriesResponse(
                        AppendEntriesResponsePayload {
                            term: self.current_term,
                            success: false,
                            match_index: 0,
                            source: self.id,
                            dest: Address::Node(m.source),
                        },
                    ),
                );
            } else if accept_append {
                let index: LogIndex = m.prev_log_index + 1;
                // the entry is already in the log
                let done_with_request = matches!(m.entry, None) || (matches!(m.entry, Some(..))
                    && self.log.len() >= index && self.log.lookup(index).term
                    == m.entry.unwrap().term);
                // conflict: remove one entry
                let conflict = matches!(m.entry, Some(..)) && self.log.len() >= index
                    && self.log.lookup(index).term != m.entry.unwrap().term;
                // no conflict: append the entry
                let no_conflict = matches!(m.entry, Some(..)) && self.log.len() == m.prev_log_index;
                if done_with_request {
                    self.commit_index = m.commit_index;
                    let mut msg_entries_len: usize = 0;
                    if matches!(m.entry, Some(..)) {
                        msg_entries_len = 1;
                    }
                    result = Some(
                        Message::AppendEntriesResponse(
                            AppendEntriesResponsePayload {
                                term: self.current_term,
                                success: true,
                                match_index: m.prev_log_index + msg_entries_len,
                                source: self.id,
                                dest: Address::Node(m.source),
                            },
                        ),
                    );
                } else if conflict {
                    self.log.pop();
                } else if no_conflict {
                    self.log.push(m.entry.unwrap());
                }
            }
            if self.is_leader() {
                self.advance_commit_index();
            }
        }
        result
    }

    fn handle_appendentriesresponse(&mut self, m: AppendEntriesResponsePayload)
        requires
            old(self)@.inv(),
            old(self)@.ae_response_ok(m),
        ensures
            final(self)@ == old(self)@.ae_response_step(m),
            final(self)@.inv(),
    {
        self.update_term(m.term);
        if m.term == self.current_term {
            if m.success {
                map_insert(&mut self.next_index, m.source, m.match_index + 1);
                map_insert(&mut self.match_index, m.source, m.match_index);
            } else {
                let old_next_index: LogIndex = *get_and_unwrap(&self.next_index, &m.source);
                let back: LogIndex = old_next_index - 1;
                map_insert(
                    &mut self.next_index,
                    m.source,
                    if back > 1 {
                        back
                    } else {
                        1
                    },
                );
            }
        }
        if self.is_leader() {
            self.advance_commit_index();
        }
    }

    /// An election timeout: a follower or candidate starts an election in a
    /// new term and asks for votes.
    pub fn timeout(&mut self) -> (r: Message)
        requires
            old(self)@.inv(),
            old(self)@.initialized,
            old(self)@.state != State::Leader,
            old(self)@.current_term < usize::MAX,
        ensures
            final(self)@ == old(self)@.become_candidate(),
            r == final(self)@.request_vote_message(),
            final(self)@.current_term == old(self)@.current_term + 1,
            final(self)@.state == State::Candidate,
            final(self)@.votes_granted.len() == 0,
            final(self)@.voted_for is None,
            final(self)@.votes_responded.is_empty(),
            final(self)@.log == old(self)@.log,
            final(self)@.inv(),
    {
        match self.state {
            State::Follower => self.become_candidate(),
            State::Candidate => self.become_candidate(),
            State::Leader => {
                proof {
                    assert(false);
                }
            },
        }
        self.request_vote()
    }

    /// A restart: the node keeps its term, vote and log, returns to follower
    /// and forgets votes, commitment and replication progress.
    pub fn restart(&mut self)
        requires
            old(self)@.inv(),
            old(self)@.initialized,
        ensures
            final(self)@ == (RaftView {
                state: State::Follower,
                votes_responded: Set::empty(),
                votes_granted: Set::empty(),
                commit_index: 0,
                next_index: fill(old(self)@.next_index, 1),
                match_index: fill(old(self)@.match_index, 0),
                ..old(self)@
            }),
            final(self)@.inv(),
    {
        self.state = State::Follower;
        self.votes_responded.clear();
        self.votes_granted.clear();
        self.commit_index = 0;
        fill_values(&mut self.next_index, 1);
        fill_values(&mut self.match_index, 0);
    }

    /// A client's value, appended by the leader to its log in its term.
    pub fn client_request(&mut self, v: Value)
        requires
            old(self)@.inv(),
            old(self)@.initialized,
            old(self)@.state == State::Leader,
            old(self)@.log.len() + 1 < usize::MAX,
        ensures
            final(self)@ == (RaftView {
                log: old(self)@.log.push(LogEntry { term: old(self)@.current_term, value: v }),
                ..old(self)@
            }),
            final(self)@.inv(),
    {
        self.log.push(LogEntry { term: self.current_term, value: v });
    }

    /// The vote request of a candidate.
    pub fn request_vote(&self) -> (r: Message)
        requires
            self@.initialized,
            self@.state == State::Candidate,
        ensures
            r == self@.request_vote_message(),
    {
        Message::RequestVoteRequest(
            RequestVoteRequestPayload {
                term: self.current_term,
                last_log_term: Self::last_term(&self.log),
                last_log_index: 0,
                dest: Address::Broadcast,
                source: self.id,
            },
        )
    }

    /// The append request a leader sends to `destid`; at most one entry.
    pub fn append_entries(&mut self, destid: &NodeId) -> (r: Message)
        requires
            old(self)@.inv(),
            old(self)@.initialized,
            old(self)@.state == State::Leader,
            old(self)@.config.contains(*destid),
            old(self)@.next_index.contains_key(*destid),
            old(self)@.next_index[*destid] <= old(self)@.log.len() + 1,
        ensures
            final(self)@ == old(self)@,
            r == old(self)@.append_entries_message(*destid),
            r is AppendEntriesRequest,
            r->AppendEntriesRequest_0.commit_index <= old(self)@.log.len(),
            r->AppendEntriesRequest_0.commit_index <= old(self)@.next_index[*destid],
            r->AppendEntriesRequest_0.commit_index <= old(self)@.commit_index,
            r->AppendEntriesRequest_0.prev_log_index + 1 == old(self)@.next_index[*destid],
    {
        proof {
            append_request_is_bounded_by_peer(old(self)@, *destid);
        }
        let m_prev_log_index: LogIndex = *get_and_unwrap(&self.next_index, destid) - 1;
        let mut m_prev_log_term: Term = 0;
        if m_prev_log_index > 0 {
            m_prev_log_term = self.log.lookup(m_prev_log_index).term;
        }
        let dest_next_index: LogIndex = *get_and_unwrap(&self.next_index, destid);
        let len: usize = self.log.len();
        let last_entry: LogIndex = if len <= dest_next_index {
            len
        } else {
            dest_next_index
        };
        let c_index: LogIndex = if last_entry <= self.commit_index {
            last_entry
        } else {
            self.commit_index
        };
        let mut m_entry = None;
        // at most one entry is sent
        if dest_next_index == last_entry {
            m_entry = Some(self.log.lookup(last_entry));
        }
        Message::AppendEntriesRequest(
            AppendEntriesRequestPayload {
                term: self.current_term,
                prev_log_term: m_prev_log_term,
                prev_log_index: m_prev_log_index,
                entry: m_entry,
                commit_index: c_index,
                dest: Address::Broadcast,
                source: self.id,
            },
        )
    }

    fn become_candidate(&mut self)
        requires
            old(self)@.current_term < usize::MAX,
        ensures
            final(self)@ == old(self)@.become_candidate(),
    {
        self.state = State::Candidate;
        self.current_term = self.current_term + 1;
        self.voted_for = None;
        self.votes_responded = FxHashSet::default();
        self.votes_granted = FxHashSet::default();
    }

    fn become_leader(&mut self)
        requires
            old(self)@.inv(),
            old(self)@.state != State::Follower,
            old(self)@.state == State::Candidate ==> old(self)@.votes_granted.subset_of(
                old(self)@.config,
            ),
        ensures
            final(self)@ == old(self)@.become_leader(),
            final(self)@.inv(),
    {
        if self.is_candidate() && self.is_quorum(&self.votes_granted) {
            self.state = State::Leader;
            let next: LogIndex = self.log.len() + 1;
            fill_values(&mut self.next_index, next);
            fill_values(&mut self.match_index, 0);
        }
    }

    /// The node itself and every node whose match index reaches `idx`;
    /// `keys` are the keys of the match index map.
    fn agreement(&self, keys: &Vec<NodeId>, idx: LogIndex) -> (agree_set: FxHashSet<NodeId>)
        requires
            keys@.to_set() == self@.match_index.dom(),
        ensures
            agree_set@ == self@.agree_set(idx as int),
    {
        let mut agree_set = FxHashSet::<NodeId>::default();
        set_insert(&mut agree_set, self.id);
        let mut j: usize = 0;
        while j < keys.len()
            invariant
                0 <= j <= keys@.len(),
                keys@.to_set() == self@.match_index.dom(),
                agree_set@ == Set::new(
                    |n: NodeId|
                        n == self@.id || (keys@.subrange(0, j as int).to_set().contains(n)
                            && self@.match_index[n] >= idx),
                ),
            decreases keys@.len() - j,
        {
            let nid: NodeId = keys[j];
            proof {
                assert(keys@.to_set().contains(nid));
            }
            let node_match_idx: LogIndex = *get_and_unwrap(&self.match_index, &nid);
            if node_match_idx >= idx {
                set_insert(&mut agree_set, nid);
            }
            proof {
                assert(keys@.subrange(0, j + 1) == keys@.subrange(0, j as int).push(nid));
                keys@.subrange(0, j as int).lemma_push_to_set_commute(nid);
                assert(agree_set@ =~= Set::new(
                    |n: NodeId|
                        n == self@.id || (keys@.subrange(0, j + 1).to_set().contains(n)
                            && self@.match_index[n] >= idx),
                ));
            }
            j = j + 1;
        }
        proof {
            assert(keys@.subrange(0, keys@.len() as int) == keys@);
            assert(agree_set@ =~= self@.agree_set(idx as int));
        }
        agree_set
    }

    fn advance_commit_index(&mut self)
        requires
            old(self)@.state == State::Leader,
            old(self)@.agreement_in_config(),
        ensures
            final(self)@ == old(self)@.advance_commit_index(),
    {
        let mut maybe_max_index: Option<LogIndex> = None;
        let n: usize = self.log.len();
        let keys = map_keys(&self.match_index);
        let mut idx: usize = 1;
        while idx <= n
            invariant
                1 <= idx <= n + 1,
                n == self@.log.len(),
                n < usize::MAX,
                keys@.to_set() == self@.match_index.dom(),
                self@.agreement_in_config(),
                match maybe_max_index {
                    None => self@.last_quorum_index((idx - 1) as nat) == 0,
                    Some(x) => x == self@.last_quorum_index((idx - 1) as nat) && 0 < x < idx,
                },
            decreases n + 1 - idx,
        {
            let agree_set = self.agreement(&keys, idx);
            if self.is_quorum(&agree_set) {
                maybe_max_index = Some(idx);
            }
            idx = idx + 1;
        }
        match maybe_max_index {
            None => {},
            Some(max_index) => {
                if self.log.lookup(max_index).term == self.current_term {
                    self.commit_index = max_index;
                }
            },
        }
    }

    /// Catches up with a newer term.
    fn update_term(&mut self, newterm: Term)
        ensures
            final(self)@ == old(self)@.update_term(newterm),
    {
        if newterm > self.current_term {
            self.current_term = newterm;
            self.state = State::Follower;
            self.voted_for = None;
        }
    }

    /// Whether `node_set`, a set of members, is a strict majority of them.
    fn is_quorum(&self, node_set: &FxHashSet<NodeId>) -> (r: bool)
        requires
            node_set@.subset_of(self@.config),
        ensures
            r == is_quorum(node_set@, self@.config),
    {
        set_len(node_set) > set_len(&self.config) / 2
    }

    /// The term reported as the last log term: that of the entry
    /// `len() - 1` steps back from the newest, i.e. of the oldest entry, or 0.
    fn last_term(log: &Log) -> (r: Term)
        ensures
            r == oldest_term(log@),
    {
        if log.len() > 0 {
            log.lookup(1).term
        } else {
            0
        }
    }

    pub fn is_follower(&self) -> (r: bool)
        ensures
            r == (self@.state == State::Follower),
    {
        matches!(self.state, State::Follower)
    }

    pub fn is_candidate(&self) -> (r: bool)
        ensures
            r == (self@.state == State::Candidate),
    {
        matches!(self.state, State::Candidate)
    }

    pub fn is_leader(&self) -> (r: bool)
        ensures
            r == (self@.state == State::Leader),
    {
        matches!(self.state, State::Leader)
    }

    /// Whether `id` is a member of the configuration.
    pub fn is_valid_id(&self, id: &NodeId) -> (r: bool)
        ensures
            r == self@.config.contains(*id),
    {
        set_contains(&self.config, id)
    }

    /// Whether the node has joined a cluster with `init`.
    pub fn initialized(&self) -> (r: bool)
        ensures
            r == self@.initialized,
    {
        self.initialized
    }

    pub fn current_term(&self) -> (r: Term)
        ensures
            r == self@.current_term,
    {
        self.current_term
    }

    pub fn id(&self) -> (r: NodeId)
        ensures
            r == self@.id,
    {
        self.id
    }

    pub fn log(&self) -> (r: Log)
        ensures
            r@ == self@.log,
    {
        self.log.clone()
    }

    pub fn commit_index(&self) -> (r: LogIndex)
        ensures
            r == self@.commit_index,
    {
        self.commit_index
    }
}

} // verus!
