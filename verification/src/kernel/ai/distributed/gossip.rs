//! Gossip of model weight updates (eventual consistency for model data).

use vstd::prelude::*;

verus! {

/// Gossip message announcing a model version.
#[derive(Clone, Copy, Debug, PartialEq, Eq)]
pub struct GossipMessage {
    pub model_id: u32,
    pub version: u32,
    pub hash: [u8; 32],
    pub timestamp: u64,
}

/// Gossip protocol endpoint; it counts the updates it broadcast.
#[derive(Debug)]
pub struct GossipProtocol {
    messages: u64,
}

impl GossipProtocol {
    pub closed spec fn sent(&self) -> u64 {
        self.messages
    }

    /// Nothing broadcast yet.
    pub fn new() -> (r: Self)
        ensures
            r.sent() == 0,
    {
        GossipProtocol { messages: 0 }
    }

    /// Broadcasts a model update; the message count moves on (modulo 2^64).
    pub fn broadcast_model_update(&mut self, _message: GossipMessage) -> (r: Result<(), &'static str>)
        ensures
            r is Ok,
            final(self).sent() == old(self).sent().wrapping_add(1),
    {
        self.messages = self.messages.wrapping_add(1);
        Ok(())
    }
}

/// Sets up the gossip endpoint in `gossip` unless it exists.
pub fn init(gossip: &mut Option<GossipProtocol>) -> (r: Result<(), &'static str>)
    ensures
        r is Ok,
        *old(gossip) is None ==> (*final(gossip) matches Some(g) && g.sent() == 0),
        *old(gossip) is Some ==> *final(gossip) == *old(gossip),
{
    if gossip.is_some() {
        return Ok(());
    }
    *gossip = Some(GossipProtocol::new());
    Ok(())
}

} // verus!
