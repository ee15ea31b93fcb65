use vstd::prelude::*;

use crate::raft::NodeId;

verus! {

/// The network address of a member.
pub type Address = String;

/// A member of the cluster: its identifier and its address.
pub type ConfigEntry = (NodeId, Address);

/// The members of a cluster, in the order given.
#[derive(Clone)]
pub struct Config {
    members: Vec<ConfigEntry>,
}

impl View for Config {
    type V = Seq<ConfigEntry>;

    closed spec fn view(&self) -> Seq<ConfigEntry> {
        self.members@
    }
}

impl Config {
    pub fn new(members: Vec<ConfigEntry>) -> (c: Config)
        ensures
            c@ == members@,
    {
        Config { members }
    }
}

} // verus!
