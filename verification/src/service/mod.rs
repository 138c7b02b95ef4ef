//! The service: which nodes are connected, under which index and on which side, which
//! addresses are still to be reached, and how the events of the swarm change that.
//!
//! The swarm itself (sockets, handshakes, multiplexing) is outside. It is polled, its
//! event is handed to [`Service::poll_swarm`], and what the service wants of it comes
//! back as [`SwarmAction`]s.

use vstd::prelude::*;
use std::collections::HashMap;
use crate::address::{p2p_component, Endpoint, Multiaddr, PeerId, PublicKey};
use crate::cita_handler::{CITAInEvent, CITAInEventView, CITAOutEvent};
use crate::custom_proto::{Request, Response};
use crate::poll::Async;
use crate::table::Table;
use crate::service::model::{
    addrs_view, NodeInfoView, OutgoingView, ServiceEventView, ServiceView, SwarmActionView,
};

pub mod event_laws;
pub mod laws;
pub mod lemmas;
pub mod model;

verus! {

broadcast use vstd::std_specs::hash::group_hash_axioms;

/// The limit on outbound connections: one that reaches it is closed.
pub const MAX_OUTBOUND: usize = 30;

/// The limit on inbound connections: one that reaches it is closed.
pub const MAX_INBOUND: usize = 30;

/// What is known of a connected node.
#[derive(Debug)]
pub struct NodeInfo {
    pub id: PeerId,
    pub endpoint: Endpoint,
    pub address: Multiaddr,
}

impl View for NodeInfo {
    type V = NodeInfoView;

    open spec fn view(&self) -> NodeInfoView {
        NodeInfoView { id: self.id@, endpoint: self.endpoint, address: self.address@ }
    }
}

impl Clone for NodeInfo {
    fn clone(&self) -> (res: NodeInfo)
        ensures
            res@ == self@,
    {
        NodeInfo { id: self.id.clone(), endpoint: self.endpoint, address: self.address.clone() }
    }
}

/// What the service reports.
#[derive(Debug)]
pub enum ServiceEvent {
    /// Closed connection to a node.
    NodeClosed { index: usize },
    /// A custom protocol was opened with a node.
    CustomProtocolOpen { index: usize, protocol: usize, version: u8, node_info: NodeInfo },
    /// A custom protocol was closed, and with it the connection to the node.
    CustomProtocolClosed { index: usize, protocol: usize },
    /// A message came from a node.
    CustomMessage { index: usize, protocol: usize, data: Response },
    /// A node said on which addresses it listens.
    NodeInfo { index: usize, endpoint: Endpoint, listen_address: Vec<Multiaddr> },
}

impl View for ServiceEvent {
    type V = ServiceEventView;

    open spec fn view(&self) -> ServiceEventView {
        match self {
            ServiceEvent::NodeClosed { index } => ServiceEventView::NodeClosed { index: *index },
            ServiceEvent::CustomProtocolOpen { index, protocol, version, node_info } =>
                ServiceEventView::CustomProtocolOpen {
                index: *index,
                protocol: *protocol,
                version: *version,
                node_info: node_info@,
            },
            ServiceEvent::CustomProtocolClosed { index, protocol } =>
                ServiceEventView::CustomProtocolClosed { index: *index, protocol: *protocol },
            ServiceEvent::CustomMessage { index, protocol, data } =>
                ServiceEventView::CustomMessage {
                index: *index,
                protocol: *protocol,
                data: crate::custom_proto::response_view(*data),
            },
            ServiceEvent::NodeInfo { index, endpoint, listen_address } =>
                ServiceEventView::NodeInfo {
                index: *index,
                endpoint: *endpoint,
                listen_address: addrs_view(listen_address@),
            },
        }
    }
}

/// How a new connection came about.
#[derive(Debug)]
pub enum ConnectedPoint {
    /// This node dialed `address`.
    Dialer { address: Multiaddr },
    /// The other node dialed this one, and can be answered at `send_back_addr`.
    Listener { send_back_addr: Multiaddr },
}

impl ConnectedPoint {
    /// The side that opened the connection.
    pub open spec fn side(self) -> Endpoint {
        match self {
            ConnectedPoint::Dialer { .. } => Endpoint::Dialer,
            ConnectedPoint::Listener { .. } => Endpoint::Listener,
        }
    }

    /// The address of the other node.
    pub open spec fn address(self) -> Seq<u8> {
        match self {
            ConnectedPoint::Dialer { address } => address@,
            ConnectedPoint::Listener { send_back_addr } => send_back_addr@,
        }
    }
}

/// What the swarm reports.
#[derive(Debug)]
pub enum RawSwarmEvent<R> {
    /// A node was connected.
    Connected { peer_id: PeerId, endpoint: ConnectedPoint },
    /// The handler of a connection reported something.
    NodeEvent { peer_id: PeerId, event: CITAOutEvent<R> },
    /// A connection was closed.
    NodeClosed { peer_id: PeerId },
    /// A connection failed.
    NodeError { peer_id: PeerId },
    /// A known peer could not be dialed.
    DialError { multiaddr: Multiaddr },
    /// An address without a known peer could not be dialed.
    UnknownPeerDialError { multiaddr: Multiaddr },
    /// A node asks to be connected.
    IncomingConnection,
    /// A node asked to be connected, and failed.
    IncomingConnectionError,
    /// A connection took the place of another one to the same peer.
    Replaced { peer_id: PeerId },
    /// A listener is no more.
    ListenerClosed,
}

/// What the service wants of the swarm.
#[derive(Debug)]
pub enum SwarmAction<R> {
    /// Dial an address, whatever becomes of it.
    Dial(Multiaddr),
    /// Close the connection to a peer, if there is one.
    Close(PeerId),
    /// Accept the connection that comes in.
    Accept,
    /// Answer an identification request.
    Respond { responder: R, public_key: PublicKey, listen_addrs: Vec<Multiaddr>, observed_addr: Multiaddr },
    /// Tell the handler of a peer's connection something, if there is one.
    SendEvent { node: PeerId, event: CITAInEvent },
    /// Tell the handlers of all connections something.
    BroadcastEvent { event: CITAInEvent },
}

impl<R> View for SwarmAction<R> {
    type V = SwarmActionView<R>;

    open spec fn view(&self) -> SwarmActionView<R> {
        match self {
            SwarmAction::Dial(addr) => SwarmActionView::Dial(addr@),
            SwarmAction::Close(id) => SwarmActionView::Close(id@),
            SwarmAction::Accept => SwarmActionView::Accept,
            SwarmAction::Respond { responder, public_key, listen_addrs, observed_addr } =>
                SwarmActionView::Respond {
                responder: *responder,
                public_key: public_key@,
                listen_addrs: addrs_view(listen_addrs@),
                observed_addr: observed_addr@,
            },
            SwarmAction::SendEvent { node, event } => SwarmActionView::SendEvent {
                node: node@,
                event: event@,
            },
            SwarmAction::BroadcastEvent { event } => SwarmActionView::BroadcastEvent {
                event: event@,
            },
        }
    }
}

/// The contents of each action.
pub open spec fn actions_view<R>(actions: Seq<SwarmAction<R>>) -> Seq<SwarmActionView<R>> {
    actions.map_values(|a: SwarmAction<R>| a@)
}

/// The contents of what the service reports, if anything.
pub open spec fn report_view(event: Option<ServiceEvent>) -> Option<ServiceEventView> {
    match event {
        Some(event) => Some(event@),
        None => None,
    }
}

/// The contents of each message.
pub open spec fn messages_view(messages: Seq<(Vec<usize>, usize, Request)>) -> Seq<OutgoingView> {
    messages.map_values(
        |m: (Vec<usize>, usize, Request)|
            OutgoingView { indexes: m.0@, protocol: m.1, data: m.2@ },
    )
}

/// The answer to an event of a node.
#[derive(Debug)]
pub struct Reaction<R> {
    /// What the swarm is to do, in this order.
    pub actions: Vec<SwarmAction<R>>,
    /// What is reported, if anything.
    pub event: Option<ServiceEvent>,
}

/// The answer to one poll of the swarm.
#[derive(Debug)]
pub struct SwarmTurn<R> {
    /// What the swarm is to do, in this order.
    pub actions: Vec<SwarmAction<R>>,
    /// What polling comes to; `None` where the swarm is to be polled again.
    pub result: Option<Async<Option<ServiceEvent>>>,
}

/// How polling the service ends, once polling the swarm is over.
#[derive(Debug)]
pub enum PollEnd {
    /// Send this out; polling then comes to `Ready`.
    OutEvent(Option<ServiceEvent>),
    /// Poll for tasks and do what is asked for, with [`Service::handle_hook`]; polling
    /// then comes to `NotReady`.
    HandleHook,
}

/// What a service is asked to do: it pulls one thing after the other until there is
/// nothing more.
pub trait ServiceHandle: Sized {
    /// Dialing a new address
    fn new_dialer(&mut self) -> (res: Option<Multiaddr>)
        default_ensures
            res is None,
            *final(self) == *old(self),
    {
        None
    }

    /// Listening a new address
    fn new_listen(&mut self) -> (res: Option<Multiaddr>)
        default_ensures
            res is None,
            *final(self) == *old(self),
    {
        None
    }

    /// Disconnect a peer
    fn disconnect(&mut self) -> (res: Option<usize>)
        default_ensures
            res is None,
            *final(self) == *old(self),
    {
        None
    }

    /// Send message to specified node
    fn send_message(&mut self) -> (res: Vec<(Vec<usize>, usize, Request)>)
        default_ensures
            res@.len() == 0,
            *final(self) == *old(self),
    {
        Vec::new()
    }
}

/// The state of the service.
#[derive(Debug)]
pub struct Service {
    local_public_key: PublicKey,
    local_peer_id: PeerId,
    listening_address: Vec<Multiaddr>,
    connected_nodes: HashMap<usize, NodeInfo>,
    peer_index: Table<PeerId>,
    need_connect: Vec<Multiaddr>,
    next_index: usize,
    outbound_num: usize,
    inbound_num: usize,
}

impl View for Service {
    type V = ServiceView;

    closed spec fn view(&self) -> ServiceView {
        ServiceView {
            local_public_key: self.local_public_key@,
            local_peer_id: self.local_peer_id@,
            listening_address: addrs_view(self.listening_address@),
            connected_nodes: self.connected_nodes@.map_values(|n: NodeInfo| n@),
            peer_index: self.peer_index@,
            need_connect: addrs_view(self.need_connect@),
            next_index: self.next_index,
            outbound_num: self.outbound_num,
            inbound_num: self.inbound_num,
        }
    }
}

/// Creates a new service.
pub fn build_service(local_public_key: PublicKey) -> (res: Service)
    ensures
        res.wf(),
        crate::address::peer_id_of_key(local_public_key@) == Some(res@.local_peer_id),
        res@ == (ServiceView {
            local_public_key: local_public_key@,
            local_peer_id: res@.local_peer_id,
            listening_address: seq![],
            connected_nodes: Map::empty(),
            peer_index: Map::empty(),
            need_connect: seq![],
            next_index: 0,
            outbound_num: 0,
            inbound_num: 0,
        }),
{
    let local_peer_id = local_public_key.to_peer_id();
    let res = Service {
        local_public_key,
        local_peer_id,
        listening_address: Vec::new(),
        connected_nodes: HashMap::new(),
        peer_index: Table::new(),
        need_connect: Vec::new(),
        next_index: 0,
        outbound_num: 0,
        inbound_num: 0,
    };
    proof {
        let nodes = res@.connected_nodes;
        assert(nodes =~= Map::<usize, NodeInfoView>::empty());
        assert(model::on_side(nodes, Endpoint::Dialer) =~= Set::empty());
        assert(model::on_side(nodes, Endpoint::Listener) =~= Set::empty());
        assert(res@.listening_address =~= seq![]);
        assert(res@.need_connect =~= seq![]);
    }
    res
}

/// A list of addresses with the same addresses.
fn clone_addrs(addrs: &Vec<Multiaddr>) -> (res: Vec<Multiaddr>)
    ensures
        addrs_view(res@) == addrs_view(addrs@),
{
    let mut res: Vec<Multiaddr> = Vec::new();
    let mut i: usize = 0;
    while i < addrs.len()
        invariant
            0 <= i <= addrs@.len(),
            res@.len() == i,
            forall|j: int| 0 <= j < i ==> (#[trigger] res@[j])@ == addrs@[j]@,
        decreases addrs@.len() - i,
    {
        res.push(addrs[i].clone());
        i = i + 1;
    }
    assert(addrs_view(res@) =~= addrs_view(addrs@));
    res
}

/// Whether an address stands in a list.
fn has_addr(addrs: &Vec<Multiaddr>, addr: &Multiaddr) -> (res: bool)
    ensures
        res == addrs_view(addrs@).contains(addr@),
{
    let mut i: usize = 0;
    while i < addrs.len()
        invariant
            0 <= i <= addrs@.len(),
            forall|j: int| 0 <= j < i ==> (#[trigger] addrs_view(addrs@)[j]) != addr@,
        decreases addrs@.len() - i,
    {
        if addrs[i].same(addr) {
            assert(addrs_view(addrs@)[i as int] == addr@);
            return true;
        }
        i = i + 1;
    }
    false
}

impl Service {
    /// The service is as it is between events.
    pub closed spec fn wf(&self) -> bool {
        self.peer_index.wf() && self@.wf()
    }

    /// The service is as it is in the middle of an event.
    spec fn consistent(&self) -> bool {
        self.peer_index.wf() && self@.consistent()
    }

    /// What `wf` says of the state of the service.
    pub proof fn lemma_wf(&self)
        requires
            self.wf(),
        ensures
            self@.wf(),
    {
    }

    /// The index of a peer.
    pub fn get_index_by_id(&self, id: &PeerId) -> (res: Option<&usize>)
        requires
            self.wf(),
        ensures
            match res {
                Some(index) => self@.known(id@) && *index == self@.peer_index[id@],
                None => !self@.known(id@),
            },
    {
        self.peer_index.get(id)
    }

    /// What is known of the node with an index.
    pub fn get_info_by_index(&self, id: usize) -> (res: Option<&NodeInfo>)
        ensures
            match res {
                Some(info) => self@.connected_nodes.contains_key(id) && info@
                    == self@.connected_nodes[id],
                None => !self@.connected_nodes.contains_key(id),
            },
    {
        self.connected_nodes.get(&id)
    }

    fn remove_node(&mut self, id: &PeerId) -> (res: Option<usize>)
        requires
            old(self).consistent(),
        ensures
            final(self).consistent(),
            final(self)@ == old(self)@.dropped(id@),
            match res {
                Some(index) => old(self)@.known(id@) && index == old(self)@.peer_index[id@],
                None => !old(self)@.known(id@),
            },
    {
        proof {
            lemmas::lemma_dropped(self@, id@);
        }
        match self.peer_index.remove(id) {
            Some(index) => {
                if let Some(info) = self.connected_nodes.remove(&index) {
                    match info.endpoint {
                        Endpoint::Dialer => {
                            self.outbound_num = self.outbound_num - 1;
                        },
                        Endpoint::Listener => {
                            self.inbound_num = self.inbound_num - 1;
                        },
                    }
                }
                proof {
                    assert(self@.connected_nodes =~= old(self)@.connected_nodes.remove(index));
                    assert(self@ =~= old(self)@.dropped(id@));
                }
                Some(index)
            },
            None => {
                proof {
                    assert(self@.peer_index =~= old(self)@.peer_index);
                    assert(self@ =~= old(self)@);
                }
                None
            },
        }
    }

    /// Disconnects a peer by id: hands out the index that it had, and what the swarm is to
    /// do, which is to close the connection to a peer that had one.
    pub fn drop_node<R>(&mut self, id: PeerId) -> (res: (Option<usize>, Vec<SwarmAction<R>>))
        requires
            old(self).wf(),
        ensures
            final(self).wf(),
            final(self)@ == old(self)@.dropped(id@),
            match res.0 {
                Some(index) => old(self)@.known(id@) && index == old(self)@.peer_index[id@],
                None => !old(self)@.known(id@),
            },
            actions_view(res.1@) == old(self)@.close_action::<R>(id@),
    {
        proof {
            lemmas::lemma_dropped(self@, id@);
        }
        let mut actions: Vec<SwarmAction<R>> = Vec::new();
        let dropped = self.remove_node(&id);
        if dropped.is_some() {
            actions.push(SwarmAction::Close(id));
        }
        assert(actions_view(actions@) =~= old(self)@.close_action::<R>(id@));
        (dropped, actions)
    }

    /// Takes up the addresses under which this node may be reached, but for those that
    /// are known already: they come after those, in the order in which they are found.
    pub fn add_observed_addr(&mut self, reachable: &Vec<Multiaddr>)
        requires
            old(self).wf(),
        ensures
            final(self).wf(),
            final(self)@ == (ServiceView {
                listening_address: model::merged(
                    old(self)@.listening_address,
                    addrs_view(reachable@),
                ),
                ..old(self)@
            }),
            final(self)@.listening_address.take(old(self)@.listening_address.len() as int)
                == old(self)@.listening_address,
            forall|a: Seq<u8>| #[trigger]
                final(self)@.listening_address.contains(a) <==> old(
                    self,
                )@.listening_address.contains(a) || addrs_view(reachable@).contains(a),
            old(self)@.listening_address.no_duplicates()
                ==> final(self)@.listening_address.no_duplicates(),
    {
        proof {
            laws::law_merged(self@.listening_address, addrs_view(reachable@));
        }
        self.merge_addrs(reachable);
    }

    fn merge_addrs(&mut self, reachable: &Vec<Multiaddr>)
        requires
            old(self).peer_index.wf(),
        ensures
            final(self).peer_index.wf(),
            final(self)@ == (ServiceView {
                listening_address: model::merged(
                    old(self)@.listening_address,
                    addrs_view(reachable@),
                ),
                ..old(self)@
            }),
    {
        let ghost known = self@.listening_address;
        let ghost found = addrs_view(reachable@);
        let ghost before = self@;
        assert(found.take(0) =~= seq![]);
        let mut i: usize = 0;
        while i < reachable.len()
            invariant
                0 <= i <= reachable@.len(),
                found == addrs_view(reachable@),
                self.peer_index.wf(),
                self@ == (ServiceView {
                    listening_address: model::merged(known, found.take(i as int)),
                    ..before
                }),
            decreases reachable@.len() - i,
        {
            let ghost now = self@;
            assert(found.take(i + 1).drop_last() =~= found.take(i as int));
            assert(found.take(i + 1).last() == reachable@[i as int]@);
            if !has_addr(&self.listening_address, &reachable[i]) {
                self.listening_address.push(reachable[i].clone());
                assert(self@.listening_address =~= now.listening_address.push(
                    reachable@[i as int]@,
                ));
                assert(self@ =~= (ServiceView {
                    listening_address: model::merged(known, found.take(i + 1)),
                    ..before
                }));
            }
            i = i + 1;
        }
        assert(found.take(i as int) =~= found);
    }

    /// Answers an identification request, if the peer that asks is known.
    fn respond_to_identify_request<R>(&self, requester: &PeerId, responder: R) -> (res: Option<
        SwarmAction<R>,
    >)
        requires
            self.consistent(),
        ensures
            match res {
                Some(action) => self@.known(requester@) && action@ == (SwarmActionView::Respond {
                    responder,
                    public_key: self@.local_public_key,
                    listen_addrs: self@.listening_address,
                    observed_addr: self@.connected_nodes[self@.peer_index[requester@]].address,
                }),
                None => !self@.known(requester@),
            },
    {
        match self.peer_index.get(requester) {
            Some(index) => {
                assert(self@.connected_nodes.contains_key(*index));
                match self.connected_nodes.get(index) {
                    Some(info) => Some(
                        SwarmAction::Respond {
                            responder,
                            public_key: self.local_public_key.clone(),
                            listen_addrs: clone_addrs(&self.listening_address),
                            observed_addr: info.address.clone(),
                        },
                    ),
                    None => None,
                }
            },
            None => None,
        }
    }

    /// Takes all addresses that are still to be reached, the last one first.
    fn redial<R>(&mut self) -> (res: Vec<SwarmAction<R>>)
        requires
            old(self).peer_index.wf(),
        ensures
            final(self).peer_index.wf(),
            final(self)@ == (ServiceView { need_connect: seq![], ..old(self)@ }),
            actions_view(res@) == model::redials::<R>(old(self)@.need_connect),
    {
        let ghost all = self.need_connect@;
        let ghost before = self@;
        let mut res: Vec<SwarmAction<R>> = Vec::new();
        while self.need_connect.len() > 0
            invariant
                self.peer_index.wf(),
                res@.len() + self.need_connect@.len() == all.len(),
                self.need_connect@ == all.take(self.need_connect@.len() as int),
                self@ == (ServiceView { need_connect: addrs_view(self.need_connect@), ..before }),
                forall|j: int|
                    0 <= j < res@.len() ==> (#[trigger] res@[j])@ == SwarmActionView::<R>::Dial(
                        all[all.len() - 1 - j]@,
                    ),
            decreases self.need_connect@.len(),
        {
            if let Some(addr) = self.need_connect.pop() {
                res.push(self.dial(addr));
                assert(self.need_connect@ =~= all.take(self.need_connect@.len() as int));
            }
        }
        proof {
            assert(self@ =~= (ServiceView { need_connect: seq![], ..before }));
            assert(actions_view(res@) =~= model::redials::<R>(before.need_connect));
        }
        res
    }

    fn handle<R>(&mut self, peer_id: PeerId, event: CITAOutEvent<R>, reachable: &Vec<Multiaddr>) -> (res:
        Reaction<R>)
        requires
            old(self).consistent(),
            old(self)@.expects(peer_id@, event),
        ensures
            final(self).consistent(),
            final(self)@ == old(self)@.after_event(peer_id@, event, addrs_view(reachable@)),
            actions_view(res.actions@) == old(self)@.event_actions(peer_id@, event),
            report_view(res.event) == old(self)@.event_report(peer_id@, event),
    {
        let ghost s = self@;
        proof {
            lemmas::lemma_after_event(s, peer_id@, event, addrs_view(reachable@));
            lemmas::lemma_dropped(s, peer_id@);
        }
        let mut actions: Vec<SwarmAction<R>> = Vec::new();
        let report = match event {
            CITAOutEvent::CustomProtocolOpen { protocol, version } => {
                match self.peer_index.get(&peer_id) {
                    Some(index) => match self.connected_nodes.get(index) {
                        Some(info) => Some(
                            ServiceEvent::CustomProtocolOpen {
                                index: *index,
                                protocol,
                                version,
                                node_info: info.clone(),
                            },
                        ),
                        None => None,
                    },
                    None => None,
                }
            },
            CITAOutEvent::CustomMessage { protocol, data } => {
                match self.peer_index.get(&peer_id) {
                    Some(index) => Some(
                        ServiceEvent::CustomMessage { index: *index, protocol, data },
                    ),
                    None => None,
                }
            },
            // if custom protocol close, the node must drop
            CITAOutEvent::CustomProtocolClosed { protocol } => {
                match self.remove_node(&peer_id) {
                    Some(index) => {
                        actions.push(SwarmAction::Close(peer_id));
                        Some(ServiceEvent::CustomProtocolClosed { index, protocol })
                    },
                    None => None,
                }
            },
            // if node is useless, must drop
            CITAOutEvent::Useless => {
                match self.remove_node(&peer_id) {
                    Some(index) => {
                        actions.push(SwarmAction::Close(peer_id));
                        Some(ServiceEvent::NodeClosed { index })
                    },
                    None => None,
                }
            },
            CITAOutEvent::PingStart => None,
            CITAOutEvent::PingSuccess(_) => None,
            CITAOutEvent::IdentificationRequest(request) => {
                match self.respond_to_identify_request(&peer_id, request) {
                    Some(action) => actions.push(action),
                    None => {},
                }
                None
            },
            CITAOutEvent::Identified { info, observed_addr: _ } => {
                self.merge_addrs(reachable);
                match self.peer_index.get(&peer_id) {
                    Some(index) => match self.connected_nodes.get(index) {
                        Some(node) => Some(
                            ServiceEvent::NodeInfo {
                                index: *index,
                                endpoint: node.endpoint,
                                listen_address: info.listen_addrs,
                            },
                        ),
                        None => None,
                    },
                    None => None,
                }
            },
            CITAOutEvent::NeedReDial => {
                actions = self.redial();
                None
            },
            CITAOutEvent::OverMaxConnection => {
                match self.remove_node(&peer_id) {
                    Some(_) => actions.push(SwarmAction::Close(peer_id)),
                    None => {},
                }
                self.next_index = self.next_index - 1;
                None
            },
        };
        assert(actions_view(actions@) =~= s.event_actions(peer_id@, event));
        Reaction { actions, event: report }
    }

    /// Takes an event of a node. `reachable` holds the addresses under which the
    /// transport may make an observed address reachable, and matters where the node was
    /// identified.
    pub fn event_handle<R>(
        &mut self,
        peer_id: PeerId,
        event: CITAOutEvent<R>,
        reachable: &Vec<Multiaddr>,
    ) -> (res: Reaction<R>)
        requires
            old(self).wf(),
            old(self)@.expects(peer_id@, event),
        ensures
            final(self).wf(),
            final(self)@ == old(self)@.after_event(peer_id@, event, addrs_view(reachable@)),
            actions_view(res.actions@) == old(self)@.event_actions(peer_id@, event),
            report_view(res.event) == old(self)@.event_report(peer_id@, event),
    {
        proof {
            lemmas::lemma_after_event(self@, peer_id@, event, addrs_view(reachable@));
        }
        self.handle(peer_id, event, reachable)
    }

    /// Whether [`Service::event_handle`] can take an event.
    pub fn is_expected<R>(&self, peer_id: &PeerId, event: &CITAOutEvent<R>) -> (res: bool)
        requires
            self.wf(),
        ensures
            res == self@.expects(peer_id@, *event),
    {
        match event {
            CITAOutEvent::CustomProtocolOpen { .. } => self.peer_index.get(peer_id).is_some(),
            CITAOutEvent::CustomMessage { .. } => self.peer_index.get(peer_id).is_some(),
            CITAOutEvent::CustomProtocolClosed { .. } => self.peer_index.get(peer_id).is_some(),
            CITAOutEvent::Useless => self.peer_index.get(peer_id).is_some(),
            CITAOutEvent::Identified { .. } => self.peer_index.get(peer_id).is_some(),
            CITAOutEvent::OverMaxConnection => match self.peer_index.get(peer_id) {
                Some(index) => self.next_index > 0 && *index == self.next_index - 1,
                None => false,
            },
            _ => true,
        }
    }

    /// Whether [`Service::poll_swarm`] can take an event.
    pub fn is_admitted<R>(&self, event: &RawSwarmEvent<R>) -> (res: bool)
        requires
            self.wf(),
        ensures
            res == self@.admits(*event),
    {
        match event {
            RawSwarmEvent::Connected { .. } => self.next_index < usize::MAX,
            RawSwarmEvent::NodeEvent { peer_id, event } => self.is_expected(peer_id, event),
            RawSwarmEvent::NodeClosed { peer_id } => self.peer_index.get(peer_id).is_some(),
            RawSwarmEvent::NodeError { peer_id } => self.peer_index.get(peer_id).is_some(),
            _ => true,
        }
    }

    /// Records what the swarm reports, and makes out which event of which peer that is;
    /// `None` where the swarm is simply polled on.
    fn record<R>(&mut self, event: RawSwarmEvent<R>) -> (res: Option<(PeerId, CITAOutEvent<R>)>)
        requires
            old(self).wf(),
            old(self)@.admits(event),
        ensures
            final(self).consistent(),
            final(self)@ == old(self)@.recorded(event),
            match res {
                Some((id, raised)) => old(self)@.raised(event) == Some((id@, raised)),
                None => old(self)@.raised(event) is None,
            },
    {
        let ghost s = self@;
        proof {
            lemmas::lemma_recorded(s, event);
        }
        match event {
            RawSwarmEvent::Connected { peer_id, endpoint } => {
                let (address, endpoint) = match endpoint {
                    ConnectedPoint::Dialer { address } => {
                        self.outbound_num = self.outbound_num + 1;
                        (address, Endpoint::Dialer)
                    },
                    ConnectedPoint::Listener { send_back_addr } => {
                        self.inbound_num = self.inbound_num + 1;
                        (send_back_addr, Endpoint::Listener)
                    },
                };
                let node = NodeInfo { id: peer_id.clone(), address, endpoint };
                self.connected_nodes.insert(self.next_index, node);
                self.peer_index.insert(peer_id.clone(), self.next_index);
                self.next_index = self.next_index + 1;
                proof {
                    assert(self@.connected_nodes =~= s.connected_nodes.insert(s.next_index, node@));
                    assert(self@ =~= s.recorded(event));
                }
                if self.inbound_num < MAX_INBOUND && self.outbound_num < MAX_OUTBOUND {
                    None
                } else {
                    // Disconnected more than the maximum number of connections
                    Some((peer_id, CITAOutEvent::OverMaxConnection))
                }
            },
            RawSwarmEvent::NodeEvent { peer_id, event } => Some((peer_id, event)),
            RawSwarmEvent::NodeClosed { peer_id } => Some((peer_id, CITAOutEvent::Useless)),
            RawSwarmEvent::NodeError { peer_id } => Some((peer_id, CITAOutEvent::Useless)),
            RawSwarmEvent::DialError { multiaddr } => {
                self.need_connect.push(multiaddr);
                assert(self@.need_connect =~= s.need_connect.push(multiaddr@));
                assert(self@ =~= s.recorded(event));
                Some((self.local_peer_id.clone(), CITAOutEvent::NeedReDial))
            },
            RawSwarmEvent::UnknownPeerDialError { multiaddr } => {
                self.need_connect.push(multiaddr);
                assert(self@.need_connect =~= s.need_connect.push(multiaddr@));
                assert(self@ =~= s.recorded(event));
                Some((self.local_peer_id.clone(), CITAOutEvent::NeedReDial))
            },
            RawSwarmEvent::Replaced { peer_id } => {
                if let Some(index) = self.peer_index.remove(&peer_id) {
                    self.connected_nodes.remove(&index);
                    assert(self@.connected_nodes =~= s.connected_nodes.remove(index));
                }
                assert(self@.peer_index =~= s.recorded(event).peer_index);
                assert(self@ =~= s.recorded(event));
                Some((peer_id, CITAOutEvent::NeedReDial))
            },
            RawSwarmEvent::IncomingConnection => None,
            RawSwarmEvent::IncomingConnectionError => None,
            RawSwarmEvent::ListenerClosed => None,
        }
    }

    /// Takes what the swarm answered to a poll. `reachable` is as in
    /// [`Service::event_handle`].
    pub fn poll_swarm<R>(
        &mut self,
        polled: Async<RawSwarmEvent<R>>,
        reachable: &Vec<Multiaddr>,
    ) -> (res: SwarmTurn<R>)
        requires
            old(self).wf(),
            polled matches Async::Ready(event) ==> old(self)@.admits(event),
        ensures
            final(self).wf(),
            match polled {
                Async::NotReady => {
                    &&& final(self)@ == old(self)@
                    &&& res.actions@.len() == 0
                    &&& res.result == Some(Async::<Option<ServiceEvent>>::NotReady)
                },
                Async::Ready(event) => {
                    &&& final(self)@ == old(self)@.after_swarm(event, addrs_view(reachable@))
                    &&& actions_view(res.actions@) == old(self)@.swarm_actions(event)
                    &&& match old(self)@.swarm_report(event) {
                        Some(report) => res.result matches Some(Async::Ready(Some(e))) && e@
                            == report,
                        None => res.result is None,
                    }
                },
            },
    {
        match polled {
            Async::NotReady => SwarmTurn {
                actions: Vec::new(),
                result: Some(Async::NotReady),
            },
            Async::Ready(event) => {
                let ghost s = self@;
                proof {
                    lemmas::lemma_recorded(s, event);
                    lemmas::lemma_after_swarm(s, event, addrs_view(reachable@));
                }
                let accept = matches!(event, RawSwarmEvent::IncomingConnection);
                match self.record(event) {
                    Some((id, raised)) => {
                        let reaction = self.handle(id, raised, reachable);
                        let result = match reaction.event {
                            Some(report) => Some(Async::Ready(Some(report))),
                            None => None,
                        };
                        SwarmTurn { actions: reaction.actions, result }
                    },
                    None => {
                        let mut actions: Vec<SwarmAction<R>> = Vec::new();
                        if accept {
                            actions.push(SwarmAction::Accept);
                        }
                        assert(actions_view(actions@) =~= s.swarm_actions(event));
                        SwarmTurn { actions, result: None }
                    },
                }
            },
        }
    }

    /// Takes what polling the swarm came to, and says how polling the service ends.
    pub fn poll(&self, polled: Async<Option<ServiceEvent>>) -> (res: PollEnd)
        ensures
            res == match polled {
                Async::Ready(value) => PollEnd::OutEvent(value),
                Async::NotReady => PollEnd::HandleHook,
            },
    {
        match polled {
            Async::Ready(value) => PollEnd::OutEvent(value),
            Async::NotReady => PollEnd::HandleHook,
        }
    }

    /// Sends a message to a node.
    pub fn send_custom_message<R>(&self, node: PeerId, protocol: usize, data: Request) -> (res:
        SwarmAction<R>)
        ensures
            res@ == (SwarmActionView::<R>::SendEvent {
                node: node@,
                event: CITAInEventView::SendCustomMessage { protocol, data: data@ },
            }),
    {
        SwarmAction::SendEvent { node, event: CITAInEvent::SendCustomMessage { protocol, data } }
    }

    /// Sends a message to all nodes.
    pub fn broadcast<R>(&self, protocol: usize, data: Request) -> (res: SwarmAction<R>)
        ensures
            res@ == (SwarmActionView::<R>::BroadcastEvent {
                event: CITAInEventView::SendCustomMessage { protocol, data: data@ },
            }),
    {
        SwarmAction::BroadcastEvent { event: CITAInEvent::SendCustomMessage { protocol, data } }
    }

    /// Takes what the swarm answered to a request to listen, and completes the address
    /// with this node's peer id.
    pub fn listen_on(&self, listening: Result<Multiaddr, Multiaddr>) -> (res: Result<
        Multiaddr,
        Multiaddr,
    >)
        ensures
            match (listening, res) {
                (Ok(addr), Ok(complete)) => complete@ == addr@ + p2p_component(self@.local_peer_id),
                (Err(addr), Err(refused)) => refused@ == addr@,
                _ => false,
            },
    {
        match listening {
            Ok(mut addr) => {
                addr.append_p2p(&self.local_peer_id);
                Ok(addr)
            },
            Err(addr) => Err(addr),
        }
    }

    /// Start dialing an address.
    pub fn dial<R>(&self, addr: Multiaddr) -> (res: SwarmAction<R>)
        ensures
            res@ == SwarmActionView::<R>::Dial(addr@),
    {
        SwarmAction::Dial(addr)
    }

    fn disconnect_all<R>(&mut self, indexes: &Vec<usize>) -> (res: Vec<SwarmAction<R>>)
        requires
            old(self).wf(),
        ensures
            final(self).wf(),
            final(self)@ == old(self)@.disconnected(indexes@),
            actions_view(res@) == old(self)@.disconnect_actions::<R>(indexes@),
    {
        let ghost s = self@;
        let mut res: Vec<SwarmAction<R>> = Vec::new();
        let mut i: usize = 0;
        assert(actions_view(res@) =~= s.disconnect_actions::<R>(indexes@.take(0)));
        while i < indexes.len()
            invariant
                0 <= i <= indexes@.len(),
                self.wf(),
                self@ == s.disconnected(indexes@.take(i as int)),
                actions_view(res@) == s.disconnect_actions::<R>(indexes@.take(i as int)),
            decreases indexes@.len() - i,
        {
            let ghost before = actions_view(res@);
            assert(indexes@.take(i + 1).drop_last() =~= indexes@.take(i as int));
            let found = match self.get_info_by_index(indexes[i]) {
                Some(info) => Some(info.id.clone()),
                None => None,
            };
            if let Some(id) = found {
                let (_, mut closing) = self.drop_node(id);
                let ghost closed = actions_view(closing@);
                let ghost done = res@;
                res.append(&mut closing);
                assert(actions_view(res@) =~= actions_view(done) + closed);
            }
            assert(actions_view(res@) =~= s.disconnect_actions::<R>(indexes@.take(i + 1)));
            i = i + 1;
        }
        assert(indexes@.take(i as int) =~= indexes@);
        res
    }

    fn send_to<R>(
        &self,
        indexes: &Vec<usize>,
        protocol: usize,
        data: &Request,
        actions: &mut Vec<SwarmAction<R>>,
    )
        requires
            indexes@.len() > 0,
        ensures
            actions_view(final(actions)@) == actions_view(old(actions)@)
                + self@.message_actions::<R>(
                OutgoingView { indexes: indexes@, protocol, data: data@ },
            ),
    {
        let ghost start = actions_view(actions@);
        let ghost event = CITAInEventView::SendCustomMessage { protocol, data: data@ };
        let ghost here = |i: usize| self@.connected_nodes.contains_key(i);
        let ghost send = |i: usize|
            SwarmActionView::<R>::SendEvent { node: self@.connected_nodes[i].id, event };
        let mut i: usize = 0;
        proof {
            reveal(Seq::filter);
        }
        assert(start =~= start + indexes@.take(0).filter(here).map_values(send));
        while i < indexes.len()
            invariant
                0 <= i <= indexes@.len(),
                event == (CITAInEventView::SendCustomMessage { protocol, data: data@ }),
                here == (|i: usize| self@.connected_nodes.contains_key(i)),
                send == (|i: usize|
                    SwarmActionView::<R>::SendEvent { node: self@.connected_nodes[i].id, event }),
                actions_view(actions@) == start + indexes@.take(i as int).filter(here).map_values(
                    send,
                ),
            decreases indexes@.len() - i,
        {
            let ghost before = actions@;
            proof {
                reveal(Seq::filter);
                assert(indexes@.take(i + 1).drop_last() =~= indexes@.take(i as int));
            }
            if let Some(info) = self.get_info_by_index(indexes[i]) {
                let copy = data.clone();
                assert(copy@ =~= data@);
                let action = self.send_custom_message(info.id.clone(), protocol, copy);
                actions.push(action);
                assert(actions_view(actions@) =~= actions_view(before).push(action@));
            }
            assert(actions_view(actions@) =~= start + indexes@.take(i + 1).filter(
                here,
            ).map_values(send));
            i = i + 1;
        }
        assert(indexes@.take(i as int) =~= indexes@);
    }

    fn send_all<R>(&self, messages: Vec<(Vec<usize>, usize, Request)>, actions: &mut Vec<SwarmAction<R>>)
        ensures
            actions_view(final(actions)@) == actions_view(old(actions)@)
                + self@.messages_actions::<R>(messages_view(messages@)),
    {
        let ghost start = actions_view(actions@);
        let ghost all = messages_view(messages@);
        let ghost out = |m: OutgoingView| self@.message_actions::<R>(m);
        let mut i: usize = 0;
        assert(all.take(0).map_values(out) =~= seq![]);
        assert(start =~= start + all.take(0).map_values(out).flatten());
        while i < messages.len()
            invariant
                0 <= i <= messages@.len(),
                all == messages_view(messages@),
                out == (|m: OutgoingView| self@.message_actions::<R>(m)),
                actions_view(actions@) == start + all.take(i as int).map_values(out).flatten(),
            decreases messages@.len() - i,
        {
            let ghost before = actions@;
            let (indexes, protocol, data) = &messages[i];
            let ghost message = all[i as int];
            if indexes.len() == 0 {
                let copy = data.clone();
                assert(copy@ =~= data@);
                let action = self.broadcast(*protocol, copy);
                actions.push(action);
                assert(actions_view(actions@) =~= actions_view(before) + out(message));
            } else {
                self.send_to(indexes, *protocol, data, actions);
            }
            proof {
                let done = all.take(i as int).map_values(out);
                assert(all.take(i + 1).map_values(out) =~= done.push(out(message)));
                done.lemma_flatten_push(out(message));
                assert(actions_view(actions@) =~= start + all.take(i + 1).map_values(
                    out,
                ).flatten());
            }
            i = i + 1;
        }
        assert(all.take(i as int) =~= all);
    }

    /// Takes what the service was asked to do: the addresses that could not be dialed,
    /// the nodes that are to be disconnected, and the messages that are to be sent.
    pub fn handle_hook<R>(
        &mut self,
        not_dialed: Vec<Multiaddr>,
        disconnects: Vec<usize>,
        messages: Vec<(Vec<usize>, usize, Request)>,
    ) -> (res: Vec<SwarmAction<R>>)
        requires
            old(self).wf(),
        ensures
            final(self).wf(),
            final(self)@ == old(self)@.hooked(addrs_view(not_dialed@), disconnects@),
            actions_view(res@) == old(self)@.hook_actions::<R>(
                addrs_view(not_dialed@),
                disconnects@,
                messages_view(messages@),
            ),
    {
        let ghost s = self@;
        let mut not_dialed = not_dialed;
        let ghost failed = addrs_view(not_dialed@);
        self.need_connect.append(&mut not_dialed);
        proof {
            assert(self@.need_connect =~= s.need_connect + failed);
            assert(self@ =~= s.owing(failed));
        }
        let mut actions: Vec<SwarmAction<R>> = self.disconnect_all(&disconnects);
        self.send_all(messages, &mut actions);
        actions
    }
}

} // verus!
