//! A node that does nothing but connect and ping.
//!
//! The swarm is polled, and what it answered is handed to [`server_polled`] on the side
//! that listens, and to [`client_polled`] on the side that dials.

use vstd::prelude::*;
use crate::address::PeerId;
use crate::poll::Async;

pub mod cita_handler;
pub mod laws;

verus! {

/// What the swarm reports.
#[derive(Debug)]
pub enum SwarmEvent {
    /// A node was connected.
    Connected { peer_id: PeerId },
    /// A node asks to be connected.
    IncomingConnection,
    /// A node asked to be connected, and failed.
    IncomingConnectionError,
    /// A connection was closed.
    NodeClosed { peer_id: PeerId },
    /// A known peer could not be dialed.
    DialError,
    /// An address without a known peer could not be dialed.
    UnknownPeerDialError,
    /// Anything else.
    Other,
}

/// How the listening side goes on after its swarm was polled.
#[derive(Debug)]
pub enum ServerTurn {
    /// Accept the connection that comes in, and poll the swarm again.
    Accept,
    /// Poll the swarm again.
    PollAgain,
    /// Polling comes to this.
    Return(Async<Option<PeerId>>),
}

/// How the listening side goes on.
pub open spec fn server_turn(polled: Async<SwarmEvent>) -> ServerTurn {
    match polled {
        Async::Ready(SwarmEvent::Connected { peer_id }) => ServerTurn::Return(
            Async::Ready(Some(peer_id)),
        ),
        Async::Ready(SwarmEvent::IncomingConnection) => ServerTurn::Accept,
        Async::Ready(SwarmEvent::IncomingConnectionError) => ServerTurn::PollAgain,
        _ => ServerTurn::Return(Async::NotReady),
    }
}

/// How the dialing side goes on.
pub open spec fn client_turn(polled: Async<SwarmEvent>) -> Async<Option<PeerId>> {
    match polled {
        Async::Ready(SwarmEvent::Connected { peer_id }) => Async::Ready(Some(peer_id)),
        _ => Async::NotReady,
    }
}

/// Both sides report every node that is connected, and nothing else; only the listening side
/// accepts, and it accepts every connection that comes in.
pub proof fn law_connections_are_reported(polled: Async<SwarmEvent>)
    ensures
        polled matches Async::Ready(SwarmEvent::Connected { peer_id }) ==> client_turn(polled)
            == Async::Ready(Some(peer_id)) && server_turn(polled) == ServerTurn::Return(
            Async::Ready(Some(peer_id)),
        ),
        client_turn(polled) is NotReady <==> !(polled matches Async::Ready(
            SwarmEvent::Connected { .. },
        )),
        server_turn(polled) is Accept <==> polled == Async::Ready(SwarmEvent::IncomingConnection),
        server_turn(polled) is PollAgain <==> polled == Async::Ready(
            SwarmEvent::IncomingConnectionError,
        ),
        server_turn(polled) matches ServerTurn::Return(result) ==> result == client_turn(polled),
{
}

/// Takes what the swarm of the listening side answered to a poll: connections are
/// accepted, failed ones are passed over, and a node that was connected is reported.
pub fn server_polled(polled: Async<SwarmEvent>) -> (res: ServerTurn)
    ensures
        res == server_turn(polled),
        res == match polled {
            Async::Ready(SwarmEvent::Connected { peer_id }) => ServerTurn::Return(
                Async::Ready(Some(peer_id)),
            ),
            Async::Ready(SwarmEvent::IncomingConnection) => ServerTurn::Accept,
            Async::Ready(SwarmEvent::IncomingConnectionError) => ServerTurn::PollAgain,
            _ => ServerTurn::Return(Async::NotReady),
        },
{
    match polled {
        Async::Ready(SwarmEvent::Connected { peer_id }) => ServerTurn::Return(
            Async::Ready(Some(peer_id)),
        ),
        Async::Ready(SwarmEvent::IncomingConnection) => ServerTurn::Accept,
        Async::Ready(SwarmEvent::IncomingConnectionError) => ServerTurn::PollAgain,
        Async::Ready(SwarmEvent::NodeClosed { .. }) => ServerTurn::Return(Async::NotReady),
        Async::Ready(SwarmEvent::DialError) => ServerTurn::Return(Async::NotReady),
        Async::Ready(SwarmEvent::UnknownPeerDialError) => ServerTurn::Return(Async::NotReady),
        Async::Ready(SwarmEvent::Other) => ServerTurn::Return(Async::NotReady),
        Async::NotReady => ServerTurn::Return(Async::NotReady),
    }
}

/// Takes what the swarm of the dialing side answered to a poll: only a node that was
/// connected is reported.
pub fn client_polled(polled: Async<SwarmEvent>) -> (res: Async<Option<PeerId>>)
    ensures
        res == client_turn(polled),
        res == match polled {
            Async::Ready(SwarmEvent::Connected { peer_id }) => Async::Ready(Some(peer_id)),
            _ => Async::NotReady,
        },
{
    match polled {
        Async::Ready(SwarmEvent::Connected { peer_id }) => Async::Ready(Some(peer_id)),
        _ => Async::NotReady,
    }
}

} // verus!
