//! Events the network bridge hands to the subsystems of a peer set.

use vstd::prelude::*;

verus! {

/// The role a connected peer was observed to have.
#[derive(Debug, Clone, Copy, PartialEq, Eq, Structural)]
pub enum ObservedRole {
    Light,
    Full,
    Authority,
}

/// A node's view: the heads a node is interested in, and its last finalized block.
#[derive(Debug, Clone, PartialEq, Eq)]
pub struct NetworkView {
    /// The block hashes, by handle.
    pub heads: Vec<u64>,
    /// The number of the last finalized block.
    pub finalized_number: u32,
}

/// A message was not of the variant a subsystem handles.
#[derive(Debug, Clone, Copy, PartialEq, Eq, Structural)]
pub struct WrongVariant;

/// Events from network. Peers and authorities are known by handles.
#[derive(Debug, Clone)]
pub enum NetworkBridgeEvent<M> {
    /// A peer has connected.
    PeerConnected(u64, ObservedRole, Option<u64>),
    /// A peer has disconnected.
    PeerDisconnected(u64),
    /// Peer has sent a message.
    PeerMessage(u64, M),
    /// Peer's view has changed.
    PeerViewChange(u64, NetworkView),
    /// Our view has changed.
    OurViewChange(NetworkView),
}

/// Whether `r` is a view with the same heads and finalized number as `v`.
pub open spec fn same_view(r: NetworkView, v: NetworkView) -> bool {
    r.heads@ == v.heads@ && r.finalized_number == v.finalized_number
}

fn clone_view(v: &NetworkView) -> (r: NetworkView)
    ensures
        same_view(r, *v),
{
    NetworkView { heads: v.heads.clone(), finalized_number: v.finalized_number }
}

impl<M> NetworkBridgeEvent<M> {
    /// Focus an overarching network-bridge event into some more specific
    /// variant: a message is turned by `narrow` into the message type of one
    /// subsystem, and the focusing fails where `narrow` fails; the other
    /// events are copied as they are.
    pub fn focus<T, F: Fn(&M) -> Result<T, WrongVariant>>(&self, narrow: F) -> (r: Result<
        NetworkBridgeEvent<T>,
        WrongVariant,
    >)
        requires
            self matches NetworkBridgeEvent::PeerMessage(_, msg) ==> narrow.requires((&msg,)),
        ensures
            match *self {
                NetworkBridgeEvent::PeerConnected(peer, role, authority) => r == Ok::<
                    NetworkBridgeEvent<T>,
                    WrongVariant,
                >(NetworkBridgeEvent::PeerConnected(peer, role, authority)),
                NetworkBridgeEvent::PeerDisconnected(peer) => r == Ok::<
                    NetworkBridgeEvent<T>,
                    WrongVariant,
                >(NetworkBridgeEvent::PeerDisconnected(peer)),
                NetworkBridgeEvent::PeerMessage(peer, msg) => match r {
                    Ok(NetworkBridgeEvent::PeerMessage(p, t)) => p == peer && narrow.ensures(
                        (&msg,),
                        Ok::<T, WrongVariant>(t),
                    ),
                    Ok(_) => false,
                    Err(e) => narrow.ensures((&msg,), Err::<T, WrongVariant>(e)),
                },
                NetworkBridgeEvent::PeerViewChange(peer, view) => r matches Ok(
                    NetworkBridgeEvent::PeerViewChange(p, v),
                ) && p == peer && same_view(v, view),
                NetworkBridgeEvent::OurViewChange(view) => r matches Ok(
                    NetworkBridgeEvent::OurViewChange(v),
                ) && same_view(v, view),
            },
    {
        match self {
            NetworkBridgeEvent::PeerConnected(peer, role, authority) => Ok(
                NetworkBridgeEvent::PeerConnected(*peer, *role, *authority),
            ),
            NetworkBridgeEvent::PeerDisconnected(peer) => Ok(NetworkBridgeEvent::PeerDisconnected(*peer)),
            NetworkBridgeEvent::PeerMessage(peer, msg) => match narrow(msg) {
                Ok(t) => Ok(NetworkBridgeEvent::PeerMessage(*peer, t)),
                Err(e) => Err(e),
            },
            NetworkBridgeEvent::PeerViewChange(peer, view) => Ok(
                NetworkBridgeEvent::PeerViewChange(*peer, clone_view(view)),
            ),
            NetworkBridgeEvent::OurViewChange(view) => Ok(NetworkBridgeEvent::OurViewChange(clone_view(view))),
        }
    }
}

} // verus!
