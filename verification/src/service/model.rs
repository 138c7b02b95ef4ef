//! What the service knows, and how each event changes it.

use vstd::prelude::*;
use crate::address::{Endpoint, Multiaddr};
use crate::cita_handler::{CITAInEventView, CITAOutEvent};
use crate::custom_proto::response_view;
use crate::service::{RawSwarmEvent, MAX_INBOUND, MAX_OUTBOUND};

verus! {

/// The contents of a [`crate::service::NodeInfo`].
pub struct NodeInfoView {
    pub id: Seq<u8>,
    pub endpoint: Endpoint,
    pub address: Seq<u8>,
}

/// The contents of a [`crate::service::ServiceEvent`].
pub enum ServiceEventView {
    NodeClosed { index: usize },
    CustomProtocolOpen { index: usize, protocol: usize, version: u8, node_info: NodeInfoView },
    CustomProtocolClosed { index: usize, protocol: usize },
    CustomMessage { index: usize, protocol: usize, data: Option<Seq<u8>> },
    NodeInfo { index: usize, endpoint: Endpoint, listen_address: Seq<Seq<u8>> },
}

/// The contents of a [`crate::service::SwarmAction`].
pub enum SwarmActionView<R> {
    Dial(Seq<u8>),
    Close(Seq<u8>),
    Accept,
    Respond { responder: R, public_key: Seq<u8>, listen_addrs: Seq<Seq<u8>>, observed_addr: Seq<u8> },
    SendEvent { node: Seq<u8>, event: CITAInEventView },
    BroadcastEvent { event: CITAInEventView },
}

/// A message and the nodes it is for, as the service is handed it.
pub struct OutgoingView {
    pub indexes: Seq<usize>,
    pub protocol: usize,
    pub data: Seq<u8>,
}

/// The bytes of each address.
pub open spec fn addrs_view(addrs: Seq<Multiaddr>) -> Seq<Seq<u8>> {
    addrs.map_values(|a: Multiaddr| a@)
}

/// Whether so many outbound and inbound connections stay below their limits.
pub open spec fn room_left(outbound_num: int, inbound_num: int) -> bool {
    outbound_num < MAX_OUTBOUND && inbound_num < MAX_INBOUND
}

/// The nodes that are connected on one side.
pub open spec fn on_side(nodes: Map<usize, NodeInfoView>, endpoint: Endpoint) -> Set<usize> {
    nodes.dom().filter(|i: usize| nodes[i].endpoint == endpoint)
}

/// `known`, and after it those of `found` that are not yet there.
pub open spec fn merged(known: Seq<Seq<u8>>, found: Seq<Seq<u8>>) -> Seq<Seq<u8>>
    decreases found.len(),
{
    if found.len() == 0 {
        known
    } else {
        let before = merged(known, found.drop_last());
        if before.contains(found.last()) {
            before
        } else {
            before.push(found.last())
        }
    }
}

/// One dial for each address, the last address first.
pub open spec fn redials<R>(addrs: Seq<Seq<u8>>) -> Seq<SwarmActionView<R>> {
    addrs.reverse().map_values(|a: Seq<u8>| SwarmActionView::<R>::Dial(a))
}

/// The state of the service.
#[verifier::ext_equal]
pub struct ServiceView {
    pub local_public_key: Seq<u8>,
    pub local_peer_id: Seq<u8>,
    pub listening_address: Seq<Seq<u8>>,
    pub connected_nodes: Map<usize, NodeInfoView>,
    pub peer_index: Map<Seq<u8>, usize>,
    pub need_connect: Seq<Seq<u8>>,
    pub next_index: usize,
    pub outbound_num: usize,
    pub inbound_num: usize,
}

impl ServiceView {
    /// What holds of the service at every step: each peer id leads to the node that
    /// bears it, every index in use was handed out, no connected node is missing from
    /// the counts of connections, and no connection was counted without an index.
    pub open spec fn consistent(self) -> bool {
        &&& self.connected_nodes.dom().finite()
        &&& forall|id: Seq<u8>| #[trigger]
            self.peer_index.contains_key(id) ==> self.connected_nodes.contains_key(
                self.peer_index[id],
            ) && self.connected_nodes[self.peer_index[id]].id == id
        &&& forall|i: usize| #[trigger] self.connected_nodes.contains_key(i) ==> i < self.next_index
        &&& on_side(self.connected_nodes, Endpoint::Dialer).len() <= self.outbound_num
        &&& on_side(self.connected_nodes, Endpoint::Listener).len() <= self.inbound_num
        &&& self.outbound_num + self.inbound_num <= self.next_index
    }

    /// What holds of the service between events.
    pub open spec fn wf(self) -> bool {
        &&& self.consistent()
        &&& room_left(self.outbound_num as int, self.inbound_num as int)
    }

    /// The counts are those of the connected nodes.
    pub open spec fn balanced(self) -> bool {
        &&& on_side(self.connected_nodes, Endpoint::Dialer).len() == self.outbound_num
        &&& on_side(self.connected_nodes, Endpoint::Listener).len() == self.inbound_num
    }

    /// Whether a peer id has an index.
    pub open spec fn known(self, id: Seq<u8>) -> bool {
        self.peer_index.contains_key(id)
    }

    /// The service without a peer.
    pub open spec fn dropped(self, id: Seq<u8>) -> ServiceView {
        if self.known(id) {
            let index = self.peer_index[id];
            let dialed = self.connected_nodes.contains_key(index)
                && self.connected_nodes[index].endpoint == Endpoint::Dialer;
            let listened = self.connected_nodes.contains_key(index)
                && self.connected_nodes[index].endpoint == Endpoint::Listener;
            ServiceView {
                connected_nodes: self.connected_nodes.remove(index),
                peer_index: self.peer_index.remove(id),
                outbound_num: if dialed { (self.outbound_num - 1) as usize } else { self.outbound_num },
                inbound_num: if listened { (self.inbound_num - 1) as usize } else { self.inbound_num },
                ..self
            }
        } else {
            self
        }
    }

    /// The service with one more node, under the next index.
    pub open spec fn joined(self, node: NodeInfoView) -> ServiceView {
        ServiceView {
            connected_nodes: self.connected_nodes.insert(self.next_index, node),
            peer_index: self.peer_index.insert(node.id, self.next_index),
            next_index: (self.next_index + 1) as usize,
            outbound_num: if node.endpoint == Endpoint::Dialer {
                (self.outbound_num + 1) as usize
            } else {
                self.outbound_num
            },
            inbound_num: if node.endpoint == Endpoint::Listener {
                (self.inbound_num + 1) as usize
            } else {
                self.inbound_num
            },
            ..self
        }
    }

    /// The service after the connection of a peer was replaced: the peer and its node
    /// are forgotten, and the counts stay.
    pub open spec fn replaced(self, id: Seq<u8>) -> ServiceView {
        if self.known(id) {
            ServiceView {
                connected_nodes: self.connected_nodes.remove(self.peer_index[id]),
                peer_index: self.peer_index.remove(id),
                ..self
            }
        } else {
            self
        }
    }

    /// What asking the swarm to close a peer takes: nothing, unless the peer is known.
    pub open spec fn close_action<R>(self, id: Seq<u8>) -> Seq<SwarmActionView<R>> {
        if self.known(id) {
            seq![SwarmActionView::<R>::Close(id)]
        } else {
            seq![]
        }
    }

    /// Whether an event can come from a peer: what tells of a connected node comes from
    /// a known peer, and only the node that was added last is one too many.
    pub open spec fn expects<R>(self, id: Seq<u8>, event: CITAOutEvent<R>) -> bool {
        match event {
            CITAOutEvent::CustomProtocolOpen { .. } => self.known(id),
            CITAOutEvent::CustomMessage { .. } => self.known(id),
            CITAOutEvent::CustomProtocolClosed { .. } => self.known(id),
            CITAOutEvent::Useless => self.known(id),
            CITAOutEvent::Identified { .. } => self.known(id),
            CITAOutEvent::OverMaxConnection => self.known(id) && self.peer_index[id] + 1
                == self.next_index,
            _ => true,
        }
    }

    /// The service after an event of a peer. `reachable` holds the addresses under which the
    /// transport may make an observed address reachable.
    pub open spec fn after_event<R>(
        self,
        id: Seq<u8>,
        event: CITAOutEvent<R>,
        reachable: Seq<Seq<u8>>,
    ) -> ServiceView {
        match event {
            CITAOutEvent::CustomProtocolClosed { .. } => self.dropped(id),
            CITAOutEvent::Useless => self.dropped(id),
            CITAOutEvent::Identified { .. } => ServiceView {
                listening_address: merged(self.listening_address, reachable),
                ..self
            },
            CITAOutEvent::NeedReDial => ServiceView { need_connect: seq![], ..self },
            CITAOutEvent::OverMaxConnection => ServiceView {
                next_index: (self.next_index - 1) as usize,
                ..self.dropped(id)
            },
            _ => self,
        }
    }

    /// What the swarm is asked to do on an event of a peer.
    pub open spec fn event_actions<R>(self, id: Seq<u8>, event: CITAOutEvent<R>) -> Seq<
        SwarmActionView<R>,
    > {
        match event {
            CITAOutEvent::CustomProtocolClosed { .. } => self.close_action(id),
            CITAOutEvent::Useless => self.close_action(id),
            CITAOutEvent::OverMaxConnection => self.close_action(id),
            CITAOutEvent::NeedReDial => redials(self.need_connect),
            CITAOutEvent::IdentificationRequest(responder) => if self.known(id) {
                seq![
                    SwarmActionView::Respond {
                        responder,
                        public_key: self.local_public_key,
                        listen_addrs: self.listening_address,
                        observed_addr: self.connected_nodes[self.peer_index[id]].address,
                    },
                ]
            } else {
                seq![]
            },
            _ => seq![],
        }
    }

    /// What the service reports of an event of a peer.
    pub open spec fn event_report<R>(self, id: Seq<u8>, event: CITAOutEvent<R>) -> Option<
        ServiceEventView,
    > {
        let index = self.peer_index[id];
        match event {
            CITAOutEvent::CustomProtocolOpen { protocol, version } => Some(
                ServiceEventView::CustomProtocolOpen {
                    index,
                    protocol,
                    version,
                    node_info: self.connected_nodes[index],
                },
            ),
            CITAOutEvent::CustomMessage { protocol, data } => Some(
                ServiceEventView::CustomMessage { index, protocol, data: response_view(data) },
            ),
            CITAOutEvent::CustomProtocolClosed { protocol } => Some(
                ServiceEventView::CustomProtocolClosed { index, protocol },
            ),
            CITAOutEvent::Useless => Some(ServiceEventView::NodeClosed { index }),
            CITAOutEvent::Identified { info, .. } => Some(
                ServiceEventView::NodeInfo {
                    index,
                    endpoint: self.connected_nodes[index].endpoint,
                    listen_address: addrs_view(info.listen_addrs@),
                },
            ),
            _ => None,
        }
    }

    /// The service once the swarm's own part of an event is recorded.
    pub open spec fn recorded<R>(self, event: RawSwarmEvent<R>) -> ServiceView {
        match event {
            RawSwarmEvent::Connected { peer_id, endpoint } => self.joined(
                NodeInfoView {
                    id: peer_id@,
                    endpoint: endpoint.side(),
                    address: endpoint.address(),
                },
            ),
            RawSwarmEvent::DialError { multiaddr } => ServiceView {
                need_connect: self.need_connect.push(multiaddr@),
                ..self
            },
            RawSwarmEvent::UnknownPeerDialError { multiaddr } => ServiceView {
                need_connect: self.need_connect.push(multiaddr@),
                ..self
            },
            RawSwarmEvent::Replaced { peer_id } => self.replaced(peer_id@),
            _ => self,
        }
    }

    /// The event of a peer that an event of the swarm comes down to, once it is
    /// recorded, and the peer; `None` where the swarm is simply polled on.
    pub open spec fn raised<R>(self, event: RawSwarmEvent<R>) -> Option<(Seq<u8>, CITAOutEvent<R>)> {
        match event {
            RawSwarmEvent::Connected { peer_id, .. } => if room_left(
                self.recorded(event).outbound_num as int,
                self.recorded(event).inbound_num as int,
            ) {
                None
            } else {
                Some((peer_id@, CITAOutEvent::OverMaxConnection))
            },
            RawSwarmEvent::NodeEvent { peer_id, event } => Some((peer_id@, event)),
            RawSwarmEvent::NodeClosed { peer_id } => Some((peer_id@, CITAOutEvent::Useless)),
            RawSwarmEvent::NodeError { peer_id } => Some((peer_id@, CITAOutEvent::Useless)),
            RawSwarmEvent::DialError { .. } => Some((self.local_peer_id, CITAOutEvent::NeedReDial)),
            RawSwarmEvent::UnknownPeerDialError { .. } => Some(
                (self.local_peer_id, CITAOutEvent::NeedReDial),
            ),
            RawSwarmEvent::Replaced { peer_id } => Some((peer_id@, CITAOutEvent::NeedReDial)),
            RawSwarmEvent::IncomingConnection => None,
            RawSwarmEvent::IncomingConnectionError => None,
            RawSwarmEvent::ListenerClosed => None,
        }
    }

    /// Whether the service can take an event of the swarm: there is an index left for
    /// a new node, and events of nodes come from known peers.
    pub open spec fn admits<R>(self, event: RawSwarmEvent<R>) -> bool {
        match event {
            RawSwarmEvent::Connected { .. } => self.next_index < usize::MAX,
            RawSwarmEvent::NodeEvent { peer_id, event } => self.expects(peer_id@, event),
            RawSwarmEvent::NodeClosed { peer_id } => self.known(peer_id@),
            RawSwarmEvent::NodeError { peer_id } => self.known(peer_id@),
            _ => true,
        }
    }

    /// The service after an event of the swarm.
    pub open spec fn after_swarm<R>(self, event: RawSwarmEvent<R>, reachable: Seq<Seq<u8>>) -> ServiceView {
        match self.raised(event) {
            Some((id, raised)) => self.recorded(event).after_event(id, raised, reachable),
            None => self.recorded(event),
        }
    }

    /// What the swarm is asked to do on one of its events.
    pub open spec fn swarm_actions<R>(self, event: RawSwarmEvent<R>) -> Seq<SwarmActionView<R>> {
        match self.raised(event) {
            Some((id, raised)) => self.recorded(event).event_actions(id, raised),
            None => if event is IncomingConnection {
                seq![SwarmActionView::Accept]
            } else {
                seq![]
            },
        }
    }

    /// What the service reports of an event of the swarm.
    pub open spec fn swarm_report<R>(self, event: RawSwarmEvent<R>) -> Option<ServiceEventView> {
        match self.raised(event) {
            Some((id, raised)) => self.recorded(event).event_report(id, raised),
            None => None,
        }
    }

    /// The service after nodes were disconnected, one after the other.
    pub open spec fn disconnected(self, indexes: Seq<usize>) -> ServiceView
        decreases indexes.len(),
    {
        if indexes.len() == 0 {
            self
        } else {
            let before = self.disconnected(indexes.drop_last());
            let index = indexes.last();
            if before.connected_nodes.contains_key(index) {
                before.dropped(before.connected_nodes[index].id)
            } else {
                before
            }
        }
    }

    /// The peers that are closed when nodes are disconnected, one after the other.
    pub open spec fn disconnect_actions<R>(self, indexes: Seq<usize>) -> Seq<SwarmActionView<R>>
        decreases indexes.len(),
    {
        if indexes.len() == 0 {
            seq![]
        } else {
            let before = self.disconnected(indexes.drop_last());
            let index = indexes.last();
            self.disconnect_actions(indexes.drop_last())
                + if before.connected_nodes.contains_key(index) {
                before.close_action(before.connected_nodes[index].id)
            } else {
                seq![]
            }
        }
    }

    /// How a message goes out: to every node where it names none, else to those of the
    /// nodes it names that are connected.
    pub open spec fn message_actions<R>(self, message: OutgoingView) -> Seq<SwarmActionView<R>> {
        let event = CITAInEventView::SendCustomMessage {
            protocol: message.protocol,
            data: message.data,
        };
        if message.indexes.len() == 0 {
            seq![SwarmActionView::BroadcastEvent { event }]
        } else {
            message.indexes.filter(|i: usize| self.connected_nodes.contains_key(i)).map_values(
                |i: usize| SwarmActionView::<R>::SendEvent { node: self.connected_nodes[i].id, event },
            )
        }
    }

    /// How messages go out, one after the other.
    pub open spec fn messages_actions<R>(self, messages: Seq<OutgoingView>) -> Seq<
        SwarmActionView<R>,
    > {
        messages.map_values(|m: OutgoingView| self.message_actions::<R>(m)).flatten()
    }

    /// The service with more addresses that are still to be reached.
    pub open spec fn owing(self, addrs: Seq<Seq<u8>>) -> ServiceView {
        ServiceView { need_connect: self.need_connect + addrs, ..self }
    }

    /// The service after it did what it was asked to do.
    pub open spec fn hooked(self, not_dialed: Seq<Seq<u8>>, disconnects: Seq<usize>) -> ServiceView {
        self.owing(not_dialed).disconnected(disconnects)
    }

    /// What the swarm has to do for what the service was asked to do: first close the
    /// peers, then send the messages to the nodes that are left.
    pub open spec fn hook_actions<R>(
        self,
        not_dialed: Seq<Seq<u8>>,
        disconnects: Seq<usize>,
        messages: Seq<OutgoingView>,
    ) -> Seq<SwarmActionView<R>> {
        self.owing(not_dialed).disconnect_actions::<R>(disconnects) + self.hooked(
            not_dialed,
            disconnects,
        ).messages_actions::<R>(messages)
    }
}

} // verus!
