# rusty_raft

One node of the Raft consensus protocol, written in Verus.

- `src/raft.rs`: `RaftNode`, its abstract state `RaftView`, and each step of
  the protocol (vote requests and responses, append requests and responses,
  timeouts, restarts, client requests) as a spec function that the executable
  code is proved to follow.
- `src/log.rs`: the replicated log, a linked list with 1-based positions.
- `src/message.rs`: the messages nodes exchange.
- `src/properties.rs`: proved properties of the steps (terms never decrease,
  one vote per term, a leader keeps its log, the commit rule).
- `src/fxcollections.rs`: the calls into fxhash's hash sets and maps.
- `app/`: a small local-cluster program, the network trait, and displayable
  copies of the message types.
