//! Placeholders for the layers that let several servers work as one.

use vstd::prelude::*;

verus! {

/// The cluster of servers that keys are spread over. A server that stands
/// alone has an empty one.
#[derive(Debug, Clone, Copy, Default, PartialEq, Eq, Structural)]
pub struct Cluster {}

/// The cluster of the servers that reach each other over a fast local path.
#[derive(Debug, Clone, Copy, Default, PartialEq, Eq, Structural)]
pub struct LANCluster {}

/// A member of a LAN cluster: the address at which it is reached.
#[derive(Debug, Default, PartialEq, Eq)]
pub struct LANNode {
    /// The endpoint of the node.
    pub addr: String,
}

impl LANNode {
    /// Creates the node that is reached at `addr`.
    pub fn new(addr: String) -> (node: LANNode)
        ensures
            node.addr == addr,
    {
        LANNode { addr }
    }

    /// The node as text: its address.
    pub fn describe(&self) -> (text: String)
        ensures
            text@ == self.addr@,
    {
        self.addr.clone()
    }
}

/// The requests that the members of a LAN cluster send each other.
#[derive(Debug, Clone, Copy, PartialEq, Eq, Structural)]
pub enum RequestLAN {
    Nothing,
}

/// The answers to the requests of a LAN cluster.
#[derive(Debug, Clone, Copy, PartialEq, Eq, Structural)]
pub enum ResponseLAN {
    Nothing,
}

/// The answer to a request.
pub fn answer(request: RequestLAN) -> (response: ResponseLAN)
    ensures
        response == ResponseLAN::Nothing,
{
    match request {
        RequestLAN::Nothing => ResponseLAN::Nothing,
    }
}

} // verus!
