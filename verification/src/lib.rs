//! A single Raft node, modelled as a deterministic state machine that
//! consumes messages and produces replies, together with the replicated
//! log it maintains.
pub mod log;
pub mod raft;
pub mod message;
mod fxcollections;
pub mod properties;
pub mod config;
pub mod impl_network;
