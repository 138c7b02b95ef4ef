//! What each event of the swarm, of a node and of the user comes to.

use vstd::prelude::*;
use crate::address::{Endpoint, Multiaddr};
use crate::cita_handler::{CITAInEventView, CITAOutEvent};
use crate::service::laws::{law_disconnected_are_gone, one_node_per_peer};
use crate::service::lemmas::{lemma_dropped, lemma_joined};
use crate::service::model::{
    addrs_view, merged, NodeInfoView, OutgoingView, ServiceEventView, ServiceView, SwarmActionView,
};
use crate::custom_proto::Request;
use crate::service::{
    actions_view, messages_view, report_view, ConnectedPoint, RawSwarmEvent, ServiceEvent,
    SwarmAction, MAX_INBOUND, MAX_OUTBOUND,
};

verus! {

/// Whether `after` is `before` without a known peer: its index and its node are gone, its
/// connection is no longer counted on its side, and nothing else has changed.
pub open spec fn lacks_peer(before: ServiceView, after: ServiceView, id: Seq<u8>) -> bool {
    let index = before.peer_index[id];
    &&& after.peer_index == before.peer_index.remove(id)
    &&& after.connected_nodes == before.connected_nodes.remove(index)
    &&& match before.connected_nodes[index].endpoint {
        Endpoint::Dialer => after.outbound_num == before.outbound_num - 1 && after.inbound_num
            == before.inbound_num,
        Endpoint::Listener => after.inbound_num == before.inbound_num - 1 && after.outbound_num
            == before.outbound_num,
    }
    &&& after.need_connect == before.need_connect
    &&& after.listening_address == before.listening_address
    &&& after.next_index == before.next_index
    &&& after.local_peer_id == before.local_peer_id
    &&& after.local_public_key == before.local_public_key
}

/// Whether actions dial addresses, each once, the last one first, and do nothing else.
pub open spec fn dials_back<R>(actions: Seq<SwarmActionView<R>>, addrs: Seq<Seq<u8>>) -> bool {
    &&& actions.len() == addrs.len()
    &&& forall|i: int|
        0 <= i < addrs.len() ==> #[trigger] actions[i] == SwarmActionView::<R>::Dial(
            addrs[addrs.len() - 1 - i],
        )
}

/// Dropping a known peer takes away its index, its node and its place in the count of its
/// side, and nothing else; dropping an unknown one changes nothing. Only a known one has
/// a connection to close.
pub proof fn law_dropping_takes_one_peer<R>(s: ServiceView, id: Seq<u8>)
    requires
        s.wf(),
    ensures
        s.known(id) ==> lacks_peer(s, s.dropped(id), id),
        s.known(id) ==> s.close_action::<R>(id) == seq![SwarmActionView::<R>::Close(id)],
        !s.known(id) ==> s.dropped(id) == s && s.close_action::<R>(id).len() == 0,
{
    lemma_dropped(s, id);
}

/// When the swarm says that a node's connection was closed or failed, the node is
/// dropped, on whichever side it was connected; the connection is closed, and the report
/// names the index that the node had.
pub proof fn law_lost_connection_is_dropped<R>(
    s: ServiceView,
    id: Seq<u8>,
    event: RawSwarmEvent<R>,
    reachable: Seq<Seq<u8>>,
)
    requires
        s.wf(),
        s.known(id),
        match event {
            RawSwarmEvent::NodeClosed { peer_id } => peer_id@ == id,
            RawSwarmEvent::NodeError { peer_id } => peer_id@ == id,
            _ => false,
        },
    ensures
        s.admits(event),
        !s.after_swarm(event, reachable).known(id),
        !s.after_swarm(event, reachable).connected_nodes.contains_key(s.peer_index[id]),
        lacks_peer(s, s.after_swarm(event, reachable), id),
        s.swarm_actions(event) == seq![SwarmActionView::<R>::Close(id)],
        s.swarm_report(event) == Some(ServiceEventView::NodeClosed { index: s.peer_index[id] }),
{
    lemma_dropped(s, id);
}

/// A node that makes itself useless, or that closes a custom protocol, is dropped, on
/// whichever side it was connected.
pub proof fn law_useless_node_lacks<R>(
    s: ServiceView,
    id: Seq<u8>,
    event: CITAOutEvent<R>,
    reachable: Seq<Seq<u8>>,
)
    requires
        s.wf(),
        s.known(id),
        event is Useless || event is CustomProtocolClosed,
    ensures
        s.expects(id, event),
        lacks_peer(s, s.after_event(id, event, reachable), id),
{
    lemma_dropped(s, id);
}

/// A node that is connected is let in where its side then stays below its limit and the
/// other side is below its own. It gets the next index, is found with its side and its
/// address, and is counted on its side; whatever else there is stays.
pub proof fn law_connected_node_joins<R>(
    s: ServiceView,
    event: RawSwarmEvent<R>,
    reachable: Seq<Seq<u8>>,
    id: Seq<u8>,
    endpoint: Endpoint,
    address: Seq<u8>,
)
    requires
        s.wf(),
        s.next_index < usize::MAX,
        event matches RawSwarmEvent::Connected { peer_id, endpoint: point } && peer_id@ == id && (
        match point {
            ConnectedPoint::Dialer { address: a } => endpoint == Endpoint::Dialer && a@ == address,
            ConnectedPoint::Listener { send_back_addr } => endpoint == Endpoint::Listener
                && send_back_addr@ == address,
        }),
        endpoint == Endpoint::Dialer ==> s.outbound_num + 1 < MAX_OUTBOUND && s.inbound_num
            < MAX_INBOUND,
        endpoint == Endpoint::Listener ==> s.inbound_num + 1 < MAX_INBOUND && s.outbound_num
            < MAX_OUTBOUND,
    ensures
        s.admits(event),
        ({
            let t = s.after_swarm(event, reachable);
            &&& t.connected_nodes == s.connected_nodes.insert(
                s.next_index,
                NodeInfoView { id, endpoint, address },
            )
            &&& t.peer_index == s.peer_index.insert(id, s.next_index)
            &&& t.next_index == s.next_index + 1
            &&& t.outbound_num == s.outbound_num + if endpoint == Endpoint::Dialer {
                1int
            } else {
                0int
            }
            &&& t.inbound_num == s.inbound_num + if endpoint == Endpoint::Listener {
                1int
            } else {
                0int
            }
            &&& t.need_connect == s.need_connect
            &&& t.listening_address == s.listening_address
            &&& t.local_peer_id == s.local_peer_id
            &&& t.local_public_key == s.local_public_key
        }),
        s.swarm_actions(event).len() == 0,
        s.swarm_report(event) is None,
{
    lemma_joined(s, NodeInfoView { id, endpoint, address });
}

/// A node that is connected where its side would reach its limit is turned away: its
/// connection is closed, nothing is reported, no count and no index is used up, and all
/// nodes stay; only an index that the same peer had before is gone.
pub proof fn law_node_over_limit_is_turned_away<R>(
    s: ServiceView,
    event: RawSwarmEvent<R>,
    reachable: Seq<Seq<u8>>,
    id: Seq<u8>,
)
    requires
        s.wf(),
        s.next_index < usize::MAX,
        event matches RawSwarmEvent::Connected { peer_id, endpoint } && peer_id@ == id && (
        match endpoint {
            ConnectedPoint::Dialer { .. } => s.outbound_num + 1 >= MAX_OUTBOUND,
            ConnectedPoint::Listener { .. } => s.inbound_num + 1 >= MAX_INBOUND,
        }),
    ensures
        s.swarm_actions(event) == seq![SwarmActionView::<R>::Close(id)],
        s.swarm_report(event) is None,
        s.after_swarm(event, reachable) == (ServiceView {
            peer_index: s.peer_index.remove(id),
            ..s
        }),
{
    let point = event->Connected_endpoint;
    lemma_joined(s, NodeInfoView { id, endpoint: point.side(), address: point.address() });
    let t = s.after_swarm(event, reachable);
    assert(t.connected_nodes =~= s.connected_nodes);
    assert(t.peer_index =~= s.peer_index.remove(id));
    assert(t =~= (ServiceView { peer_index: s.peer_index.remove(id), ..s }));
}

/// A connection that comes in is accepted. That, a connection that failed to come in and
/// a listener that closed change nothing and are not reported.
pub proof fn law_incoming_connection_is_accepted<R>(
    s: ServiceView,
    event: RawSwarmEvent<R>,
    reachable: Seq<Seq<u8>>,
)
    requires
        event is IncomingConnection || event is IncomingConnectionError || event is ListenerClosed,
    ensures
        s.admits(event),
        s.after_swarm(event, reachable) == s,
        s.swarm_report(event) is None,
        event is IncomingConnection ==> s.swarm_actions(event) == seq![
            SwarmActionView::<R>::Accept,
        ],
        event !is IncomingConnection ==> s.swarm_actions(event).len() == 0,
{
}

/// An address that could not be dialed is dialed again, and after it all that were still
/// to be reached, the last one first; then none is left, and nothing else has changed.
pub proof fn law_failed_dials_are_repeated<R>(
    s: ServiceView,
    event: RawSwarmEvent<R>,
    reachable: Seq<Seq<u8>>,
    addr: Seq<u8>,
)
    requires
        match event {
            RawSwarmEvent::DialError { multiaddr } => multiaddr@ == addr,
            RawSwarmEvent::UnknownPeerDialError { multiaddr } => multiaddr@ == addr,
            _ => false,
        },
    ensures
        s.admits(event),
        dials_back(s.swarm_actions(event), s.need_connect.push(addr)),
        s.after_swarm(event, reachable) == (ServiceView { need_connect: seq![], ..s }),
        s.swarm_report(event) is None,
{
}

/// A peer whose connection was replaced is forgotten with its node, and the counts stay;
/// all addresses that were still to be reached are dialed, the last one first.
pub proof fn law_replaced_peer_is_forgotten<R>(
    s: ServiceView,
    event: RawSwarmEvent<R>,
    reachable: Seq<Seq<u8>>,
    id: Seq<u8>,
)
    requires
        event matches RawSwarmEvent::Replaced { peer_id } && peer_id@ == id,
    ensures
        s.admits(event),
        dials_back(s.swarm_actions(event), s.need_connect),
        s.swarm_report(event) is None,
        s.known(id) ==> s.after_swarm(event, reachable) == (ServiceView {
            need_connect: seq![],
            peer_index: s.peer_index.remove(id),
            connected_nodes: s.connected_nodes.remove(s.peer_index[id]),
            ..s
        }),
        !s.known(id) ==> s.after_swarm(event, reachable) == (ServiceView {
            need_connect: seq![],
            ..s
        }),
{
}

/// What a handler reports through the swarm has the same effect as if it were handed to
/// the service by itself.
pub proof fn law_handler_events_pass_through<R>(
    s: ServiceView,
    event: RawSwarmEvent<R>,
    reachable: Seq<Seq<u8>>,
)
    requires
        event is NodeEvent,
    ensures
        ({
            let id = event->NodeEvent_peer_id@;
            let inner = event->NodeEvent_event;
            &&& s.admits(event) == s.expects(id, inner)
            &&& s.after_swarm(event, reachable) == s.after_event(id, inner, reachable)
            &&& s.swarm_actions(event) == s.event_actions(id, inner)
            &&& s.swarm_report(event) == s.event_report(id, inner)
        }),
{
}

/// An opened protocol is reported with the node's index and all that is known of it;
/// nothing changes.
pub proof fn law_opened_protocol_is_reported<R>(
    s: ServiceView,
    id: Seq<u8>,
    protocol: usize,
    version: u8,
    reachable: Seq<Seq<u8>>,
)
    requires
        s.known(id),
    ensures
        ({
            let event = CITAOutEvent::<R>::CustomProtocolOpen { protocol, version };
            let index = s.peer_index[id];
            &&& s.expects(id, event)
            &&& s.after_event(id, event, reachable) == s
            &&& s.event_actions(id, event).len() == 0
            &&& s.event_report(id, event) == Some(
                ServiceEventView::CustomProtocolOpen {
                    index,
                    protocol,
                    version,
                    node_info: s.connected_nodes[index],
                },
            )
        }),
{
}

/// A message is reported with the node's index and its bytes, unchanged, if it carried
/// any; nothing changes.
pub proof fn law_message_is_reported<R>(
    s: ServiceView,
    id: Seq<u8>,
    protocol: usize,
    data: Option<Vec<u8>>,
    reachable: Seq<Seq<u8>>,
)
    requires
        s.known(id),
    ensures
        ({
            let event = CITAOutEvent::<R>::CustomMessage { protocol, data };
            let index = s.peer_index[id];
            &&& s.expects(id, event)
            &&& s.after_event(id, event, reachable) == s
            &&& s.event_actions(id, event).len() == 0
            &&& data is None ==> s.event_report(id, event) == Some(
                ServiceEventView::CustomMessage { index, protocol, data: None },
            )
            &&& data matches Some(bytes) ==> s.event_report(id, event) == Some(
                ServiceEventView::CustomMessage { index, protocol, data: Some(bytes@) },
            )
        }),
{
}

/// Pings change nothing, and nothing is done or reported, whoever they come from.
pub proof fn law_pings_are_passed_over<R>(
    s: ServiceView,
    id: Seq<u8>,
    event: CITAOutEvent<R>,
    reachable: Seq<Seq<u8>>,
)
    requires
        event is PingStart || event is PingSuccess,
    ensures
        s.expects(id, event),
        s.after_event(id, event, reachable) == s,
        s.event_actions(id, event).len() == 0,
        s.event_report(id, event) is None,
{
}

/// A known peer that asks who this node is is told this node's key, all addresses it
/// listens on, and the address at which the peer was found; a stranger is told nothing.
/// Nothing changes, and nothing is reported.
pub proof fn law_identification_is_answered<R>(
    s: ServiceView,
    id: Seq<u8>,
    responder: R,
    reachable: Seq<Seq<u8>>,
)
    ensures
        ({
            let event = CITAOutEvent::IdentificationRequest(responder);
            &&& s.expects(id, event)
            &&& s.after_event(id, event, reachable) == s
            &&& s.event_report(id, event) is None
            &&& s.known(id) ==> s.event_actions(id, event) == seq![
                SwarmActionView::Respond {
                    responder,
                    public_key: s.local_public_key,
                    listen_addrs: s.listening_address,
                    observed_addr: s.connected_nodes[s.peer_index[id]].address,
                },
            ]
            &&& !s.known(id) ==> s.event_actions(id, event).len() == 0
        }),
{
}

/// A node that says who it is is reported with its index, its side and the addresses it
/// listens on; this node takes up the addresses under which it may be reached itself,
/// and nothing else changes.
pub proof fn law_identified_node_is_reported<R>(
    s: ServiceView,
    id: Seq<u8>,
    event: CITAOutEvent<R>,
    reachable: Seq<Seq<u8>>,
)
    requires
        s.known(id),
        event is Identified,
    ensures
        s.expects(id, event),
        s.event_actions(id, event).len() == 0,
        s.after_event(id, event, reachable) == (ServiceView {
            listening_address: s.after_event(id, event, reachable).listening_address,
            ..s
        }),
        forall|a: Seq<u8>| #[trigger]
            s.after_event(id, event, reachable).listening_address.contains(a)
                <==> s.listening_address.contains(a) || reachable.contains(a),
        s.event_report(id, event) matches Some(
            ServiceEventView::NodeInfo { index, endpoint, listen_address },
        ) && {
            let told = event->Identified_info.listen_addrs@;
            &&& index == s.peer_index[id]
            &&& endpoint == s.connected_nodes[index].endpoint
            &&& listen_address.len() == told.len()
            &&& forall|i: int| 0 <= i < told.len() ==> #[trigger] listen_address[i] == told[i]@
        },
{
    crate::service::laws::law_merged(s.listening_address, reachable);
}

/// Addresses are taken up one after the other: each that is not yet there comes last,
/// and each that is there is passed over.
pub proof fn law_addresses_are_taken_up_in_order(
    known: Seq<Seq<u8>>,
    found: Seq<Seq<u8>>,
    addr: Seq<u8>,
)
    ensures
        merged(known, seq![]) == known,
        known.contains(addr) || found.contains(addr) ==> merged(known, found.push(addr)) == merged(
            known,
            found,
        ),
        !known.contains(addr) && !found.contains(addr) ==> merged(known, found.push(addr))
            == merged(known, found).push(addr),
{
    assert(found.push(addr).drop_last() =~= found);
    crate::service::laws::law_merged(known, found);
}

/// To dial again means to dial all that is still to be reached, the last one first, and
/// to forget it; nothing else changes.
pub proof fn law_redial_changes_nothing_else<R>(
    s: ServiceView,
    id: Seq<u8>,
    reachable: Seq<Seq<u8>>,
)
    ensures
        s.expects(id, CITAOutEvent::<R>::NeedReDial),
        dials_back(s.event_actions(id, CITAOutEvent::<R>::NeedReDial), s.need_connect),
        s.after_event(id, CITAOutEvent::<R>::NeedReDial, reachable) == (ServiceView {
            need_connect: seq![],
            ..s
        }),
        s.event_report(id, CITAOutEvent::<R>::NeedReDial) is None,
{
}

/// A node that is one too many is dropped like any other, its connection is closed, its
/// index is free again, and nothing is reported. Only the node that was added last can
/// be one too many.
pub proof fn law_surplus_node_gives_its_index_back<R>(
    s: ServiceView,
    id: Seq<u8>,
    reachable: Seq<Seq<u8>>,
)
    requires
        s.wf(),
    ensures
        ({
            let event = CITAOutEvent::<R>::OverMaxConnection;
            let t = s.after_event(id, event, reachable);
            &&& s.expects(id, event) <==> s.known(id) && s.peer_index[id] + 1 == s.next_index
            &&& s.expects(id, event) ==> {
                &&& t.next_index == s.peer_index[id]
                &&& lacks_peer(s, ServiceView { next_index: s.next_index, ..t }, id)
                &&& s.event_actions(id, event) == seq![SwarmActionView::<R>::Close(id)]
                &&& s.event_report(id, event) is None
            }
        }),
{
    lemma_dropped(s, id);
}

/// Every event of a known peer is taken, but that it is one too many, and of a stranger
/// every event that tells nothing of a connected node.
pub proof fn law_events_are_expected<R>(s: ServiceView, id: Seq<u8>, event: CITAOutEvent<R>)
    requires
        event !is OverMaxConnection,
    ensures
        s.known(id) ==> s.expects(id, event),
        !s.known(id) ==> (s.expects(id, event) <==> event is PingStart || event is PingSuccess
            || event is IdentificationRequest || event is NeedReDial),
{
}

/// Every event of the swarm is taken, but a new node where no index is left, and the end
/// of a connection to a stranger.
pub proof fn law_swarm_events_are_admitted<R>(s: ServiceView, event: RawSwarmEvent<R>)
    requires
        event !is NodeEvent,
    ensures
        s.admits(event) <==> match event {
            RawSwarmEvent::Connected { .. } => s.next_index < usize::MAX,
            RawSwarmEvent::NodeClosed { peer_id } => s.known(peer_id@),
            RawSwarmEvent::NodeError { peer_id } => s.known(peer_id@),
            _ => true,
        },
{
}

/// To disconnect one node more closes its connection as well, where the node is connected
/// and was not named before, on whichever side it was connected; else nothing more is
/// done. So connections are closed in the order in which their nodes are first named.
pub proof fn law_disconnecting_closes_in_order<R>(s: ServiceView, indexes: Seq<usize>, index: usize)
    requires
        s.wf(),
        one_node_per_peer(s),
    ensures
        s.disconnect_actions::<R>(seq![]).len() == 0,
        s.disconnect_actions::<R>(indexes.push(index)) == s.disconnect_actions::<R>(indexes)
            + if s.connected_nodes.contains_key(index) && !indexes.contains(index) {
            seq![SwarmActionView::<R>::Close(s.connected_nodes[index].id)]
        } else {
            seq![]
        },
{
    assert(indexes.push(index).drop_last() =~= indexes);
    law_disconnected_are_gone(s, indexes);
    let before = s.disconnected(indexes);
    if before.connected_nodes.contains_key(index) {
        assert(before.known(before.connected_nodes[index].id));
    }
}

/// Disconnecting nodes closes the connection of each that is named and connected, once,
/// and does nothing else.
pub proof fn law_disconnecting_closes_each_once<R>(s: ServiceView, indexes: Seq<usize>)
    requires
        s.wf(),
        one_node_per_peer(s),
    ensures
        s.disconnect_actions::<R>(indexes).no_duplicates(),
        forall|action: SwarmActionView<R>| #[trigger]
            s.disconnect_actions::<R>(indexes).contains(action) <==> exists|i: usize| #[trigger]
                indexes.contains(i) && s.connected_nodes.contains_key(i) && action
                    == SwarmActionView::<R>::Close(s.connected_nodes[i].id),
    decreases indexes.len(),
{
    if indexes.len() > 0 {
        let init = indexes.drop_last();
        let last = indexes.last();
        assert(indexes =~= init.push(last));
        law_disconnecting_closes_each_once::<R>(s, init);
        law_disconnecting_closes_in_order::<R>(s, init, last);
        let before = s.disconnect_actions::<R>(init);
        let after = s.disconnect_actions::<R>(indexes);
        let close = |i: usize| SwarmActionView::<R>::Close(s.connected_nodes[i].id);
        assert forall|i: usize| indexes.contains(i) <==> init.contains(i) || i == last by {
            lemma_push_contains(init, last, i);
        }
        if s.connected_nodes.contains_key(last) && !init.contains(last) {
            assert(after =~= before.push(close(last)));
            assert forall|action: SwarmActionView<R>| #[trigger]
                after.contains(action) <==> before.contains(action) || action == close(last) by {
                lemma_push_contains(before, close(last), action);
            }
            if before.contains(close(last)) {
                let i = choose|i: usize| #[trigger]
                    init.contains(i) && s.connected_nodes.contains_key(i) && close(last)
                        == SwarmActionView::<R>::Close(s.connected_nodes[i].id);
                assert(s.peer_index[s.connected_nodes[i].id] == i);
                assert(s.peer_index[s.connected_nodes[last].id] == last);
            }
            assert forall|action: SwarmActionView<R>| #[trigger]
                after.contains(action) <==> exists|i: usize| #[trigger]
                    indexes.contains(i) && s.connected_nodes.contains_key(i) && action
                        == SwarmActionView::<R>::Close(s.connected_nodes[i].id) by {
                if action == close(last) {
                    assert(indexes.contains(last));
                }
                if before.contains(action) {
                    let i = choose|i: usize| #[trigger]
                        init.contains(i) && s.connected_nodes.contains_key(i) && action
                            == SwarmActionView::<R>::Close(s.connected_nodes[i].id);
                    assert(indexes.contains(i));
                }
            }
        } else {
            assert(after =~= before);
            assert forall|action: SwarmActionView<R>| #[trigger]
                after.contains(action) <==> exists|i: usize| #[trigger]
                    indexes.contains(i) && s.connected_nodes.contains_key(i) && action
                        == SwarmActionView::<R>::Close(s.connected_nodes[i].id) by {
                if before.contains(action) {
                    let i = choose|i: usize| #[trigger]
                        init.contains(i) && s.connected_nodes.contains_key(i) && action
                            == SwarmActionView::<R>::Close(s.connected_nodes[i].id);
                    assert(indexes.contains(i));
                }
                if exists|i: usize| #[trigger]
                    indexes.contains(i) && s.connected_nodes.contains_key(i) && action
                        == SwarmActionView::<R>::Close(s.connected_nodes[i].id) {
                    let i = choose|i: usize| #[trigger]
                        indexes.contains(i) && s.connected_nodes.contains_key(i) && action
                            == SwarmActionView::<R>::Close(s.connected_nodes[i].id);
                    assert(init.contains(i));
                }
            }
        }
    }
}

proof fn lemma_push_contains<A>(items: Seq<A>, last: A, a: A)
    ensures
        items.push(last).contains(a) <==> items.contains(a) || a == last,
{
    if items.contains(a) {
        let i = choose|i: int| 0 <= i < items.len() && items[i] == a;
        assert(items.push(last)[i] == a);
    }
    if a == last {
        assert(items.push(last)[items.len() as int] == a);
    }
    if items.push(last).contains(a) {
        let i = choose|i: int| 0 <= i < items.push(last).len() && items.push(last)[i] == a;
        if i < items.len() {
            assert(items[i] == a);
        }
    }
}

/// A message that names one node more goes to that node as well, after the others, if the
/// node is connected, on whichever side; else nothing more is done.
pub proof fn law_message_goes_in_order<R>(s: ServiceView, message: OutgoingView, index: usize)
    ensures
        ({
            let sent = SwarmActionView::<R>::SendEvent {
                node: s.connected_nodes[index].id,
                event: CITAInEventView::SendCustomMessage {
                    protocol: message.protocol,
                    data: message.data,
                },
            };
            let more = OutgoingView { indexes: message.indexes.push(index), ..message };
            let before = if message.indexes.len() == 0 {
                seq![]
            } else {
                s.message_actions::<R>(message)
            };
            s.message_actions::<R>(more) == if s.connected_nodes.contains_key(index) {
                before.push(sent)
            } else {
                before
            }
        }),
{
    reveal(Seq::filter);
    let here = |i: usize| s.connected_nodes.contains_key(i);
    let event = CITAInEventView::SendCustomMessage {
        protocol: message.protocol,
        data: message.data,
    };
    let send = |i: usize| SwarmActionView::<R>::SendEvent { node: s.connected_nodes[i].id, event };
    let more = OutgoingView { indexes: message.indexes.push(index), ..message };
    assert(message.indexes.push(index).drop_last() =~= message.indexes);
    let old_part = message.indexes.filter(here).map_values(send);
    if message.indexes.len() == 0 {
        assert(old_part =~= seq![]);
    }
    if here(index) {
        assert(s.message_actions::<R>(more) =~= old_part.push(send(index)));
    } else {
        assert(s.message_actions::<R>(more) =~= old_part);
    }
}

/// What the service was asked to do is done one thing after the other: first connections
/// are closed, then messages go out, in their order, to the nodes that are left. What
/// could not be dialed has no part in it.
pub proof fn law_hook_closes_before_it_sends<R>(
    s: ServiceView,
    not_dialed: Seq<Seq<u8>>,
    disconnects: Seq<usize>,
    messages: Seq<OutgoingView>,
    message: OutgoingView,
)
    ensures
        s.hook_actions::<R>(not_dialed, disconnects, seq![]) == s.disconnect_actions::<R>(
            disconnects,
        ),
        s.hook_actions::<R>(not_dialed, disconnects, messages.push(message)) == s.hook_actions::<
            R,
        >(not_dialed, disconnects, messages) + s.disconnected(disconnects).message_actions::<R>(
            message,
        ),
{
    let left = s.hooked(not_dialed, disconnects);
    let out = |m: OutgoingView| left.message_actions::<R>(m);
    lemma_owing_is_no_matter::<R>(s, not_dialed, disconnects);
    assert(Seq::<OutgoingView>::empty().map_values(out) =~= seq![]);
    assert(left.messages_actions::<R>(seq![]) =~= seq![]);
    assert(messages.push(message).map_values(out) =~= messages.map_values(out).push(out(message)));
    messages.map_values(out).lemma_flatten_push(out(message));
    assert(left.connected_nodes == s.disconnected(disconnects).connected_nodes);
    assert(left.message_actions::<R>(message) =~= s.disconnected(disconnects).message_actions::<R>(
        message,
    )) by {
        let rest = s.disconnected(disconnects);
        let event = CITAInEventView::SendCustomMessage {
            protocol: message.protocol,
            data: message.data,
        };
        assert((|i: usize| left.connected_nodes.contains_key(i)) =~= (|i: usize|
            rest.connected_nodes.contains_key(i)));
        assert((|i: usize|
            SwarmActionView::<R>::SendEvent { node: left.connected_nodes[i].id, event }) =~= (|
            i: usize,
        | SwarmActionView::<R>::SendEvent { node: rest.connected_nodes[i].id, event }));
    }
    let closed = s.disconnect_actions::<R>(disconnects);
    assert(s.hook_actions::<R>(not_dialed, disconnects, seq![]) =~= closed);
    assert(s.hook_actions::<R>(not_dialed, disconnects, messages.push(message))
        =~= s.hook_actions::<R>(not_dialed, disconnects, messages) + left.message_actions::<R>(
        message,
    ));
}

proof fn lemma_owing_is_no_matter<R>(
    s: ServiceView,
    not_dialed: Seq<Seq<u8>>,
    indexes: Seq<usize>,
)
    ensures
        s.owing(not_dialed).disconnected(indexes) == (ServiceView {
            need_connect: s.need_connect + not_dialed,
            ..s.disconnected(indexes)
        }),
        s.owing(not_dialed).disconnect_actions::<R>(indexes) == s.disconnect_actions::<R>(indexes),
        s.disconnected(indexes).need_connect == s.need_connect,
    decreases indexes.len(),
{
    if indexes.len() > 0 {
        lemma_owing_is_no_matter::<R>(s, not_dialed, indexes.drop_last());
    }
}

/// After the hook, what could not be dialed is still to be reached, behind what was to be
/// reached before; the nodes are as after disconnecting; and nothing else has changed.
pub proof fn law_hook_remembers_what_was_not_dialed<R>(
    s: ServiceView,
    not_dialed: Seq<Seq<u8>>,
    disconnects: Seq<usize>,
)
    requires
        s.wf(),
        one_node_per_peer(s),
    ensures
        ({
            let t = s.hooked(not_dialed, disconnects);
            &&& t.wf()
            &&& t.need_connect == s.need_connect + not_dialed
            &&& t.listening_address == s.listening_address
            &&& t.next_index == s.next_index
            &&& t.local_peer_id == s.local_peer_id
            &&& t.local_public_key == s.local_public_key
            &&& forall|i: usize| #[trigger]
                t.connected_nodes.contains_key(i) <==> s.connected_nodes.contains_key(i)
                    && !disconnects.contains(i)
            &&& forall|i: usize| #[trigger]
                t.connected_nodes.contains_key(i) ==> t.connected_nodes[i] == s.connected_nodes[i]
        }),
{
    lemma_owing_is_no_matter::<R>(s, not_dialed, disconnects);
    law_disconnected_are_gone(s, disconnects);
    crate::service::laws::law_disconnecting_touches_nodes_only(s, disconnects);
}

/// A message to one node goes out exactly if the node is connected and is not being
/// disconnected with it.
pub proof fn law_disconnected_node_gets_no_message<R>(
    s: ServiceView,
    not_dialed: Seq<Seq<u8>>,
    disconnects: Seq<usize>,
    index: usize,
    protocol: usize,
    data: Seq<u8>,
)
    requires
        s.wf(),
        one_node_per_peer(s),
    ensures
        s.hook_actions::<R>(
            not_dialed,
            disconnects,
            seq![OutgoingView { indexes: seq![index], protocol, data }],
        ) == s.disconnect_actions::<R>(disconnects) + if s.connected_nodes.contains_key(index)
            && !disconnects.contains(index) {
            seq![
                SwarmActionView::<R>::SendEvent {
                    node: s.connected_nodes[index].id,
                    event: CITAInEventView::SendCustomMessage { protocol, data },
                },
            ]
        } else {
            seq![]
        },
{
    let none = OutgoingView { indexes: seq![], protocol, data };
    let message = OutgoingView { indexes: seq![index], protocol, data };
    let left = s.disconnected(disconnects);
    assert(Seq::<usize>::empty().push(index) =~= seq![index]);
    assert(Seq::<OutgoingView>::empty().push(message) =~= seq![message]);
    law_hook_closes_before_it_sends::<R>(s, not_dialed, disconnects, seq![], message);
    law_message_goes_in_order::<R>(left, none, index);
    law_disconnected_are_gone(s, disconnects);
    if left.connected_nodes.contains_key(index) {
        assert(left.message_actions::<R>(message) =~= seq![
            SwarmActionView::<R>::SendEvent {
                node: s.connected_nodes[index].id,
                event: CITAInEventView::SendCustomMessage { protocol, data },
            },
        ]);
    } else {
        assert(left.message_actions::<R>(message) =~= seq![]);
    }
}

/// Disconnecting gives back the places of exactly the nodes that are named and connected:
/// with each node more, the count of its side falls by one where it was not named before.
pub proof fn law_disconnecting_gives_places_back(s: ServiceView, indexes: Seq<usize>, index: usize)
    requires
        s.wf(),
        one_node_per_peer(s),
    ensures
        s.disconnected(seq![]) == s,
        ({
            let before = s.disconnected(indexes);
            let after = s.disconnected(indexes.push(index));
            if s.connected_nodes.contains_key(index) && !indexes.contains(index) {
                lacks_peer(before, after, s.connected_nodes[index].id)
            } else {
                after == before
            }
        }),
{
    assert(indexes.push(index).drop_last() =~= indexes);
    law_disconnected_are_gone(s, indexes);
    let before = s.disconnected(indexes);
    if before.connected_nodes.contains_key(index) {
        lemma_dropped(before, before.connected_nodes[index].id);
    }
}

/// A new peer that connects while there is room, and whose connection is then closed or
/// fails, leaves nothing behind but that its index was used: all nodes, all peers and both
/// counts are as they were before.
pub proof fn law_node_that_came_and_went_leaves_no_trace<R>(
    s: ServiceView,
    came: RawSwarmEvent<R>,
    went: RawSwarmEvent<R>,
    reachable: Seq<Seq<u8>>,
    id: Seq<u8>,
)
    requires
        s.wf(),
        s.next_index < usize::MAX,
        !s.known(id),
        s.outbound_num + 1 < MAX_OUTBOUND,
        s.inbound_num + 1 < MAX_INBOUND,
        came matches RawSwarmEvent::Connected { peer_id, .. } && peer_id@ == id,
        match went {
            RawSwarmEvent::NodeClosed { peer_id } => peer_id@ == id,
            RawSwarmEvent::NodeError { peer_id } => peer_id@ == id,
            _ => false,
        },
    ensures
        s.after_swarm(came, reachable).after_swarm(went, reachable) == (ServiceView {
            next_index: (s.next_index + 1) as usize,
            ..s
        }),
        s.after_swarm(came, reachable).swarm_report(went) == Some(
            ServiceEventView::NodeClosed { index: s.next_index },
        ),
{
    let point = came->Connected_endpoint;
    law_connected_node_joins(s, came, reachable, id, point.side(), point.address());
    crate::service::laws::law_swarm_keeps_wf(s, came, reachable);
    lemma_joined(s, NodeInfoView { id, endpoint: point.side(), address: point.address() });
    let t = s.after_swarm(came, reachable);
    law_lost_connection_is_dropped(t, id, went, reachable);
    let u = t.after_swarm(went, reachable);
    assert(u.connected_nodes =~= s.connected_nodes);
    assert(u.peer_index =~= s.peer_index);
    assert(u =~= (ServiceView { next_index: (s.next_index + 1) as usize, ..s }));
}

/// What the contracts say of reports holds of the reports themselves: the same kind of
/// event, with the same numbers and the same contents.
pub proof fn law_reports_are_what_they_say(event: ServiceEvent)
    ensures
        report_view(Some(event)) == Some(event@),
        report_view(None) is None,
        match event {
            ServiceEvent::NodeClosed { index } => event@ == (ServiceEventView::NodeClosed { index }),
            ServiceEvent::CustomProtocolOpen { index, protocol, version, node_info } => event@ == (
            ServiceEventView::CustomProtocolOpen {
                index,
                protocol,
                version,
                node_info: NodeInfoView {
                    id: node_info.id@,
                    endpoint: node_info.endpoint,
                    address: node_info.address@,
                },
            }),
            ServiceEvent::CustomProtocolClosed { index, protocol } => event@ == (
            ServiceEventView::CustomProtocolClosed { index, protocol }),
            ServiceEvent::CustomMessage { index, protocol, data } => match data {
                Some(bytes) => event@ == (ServiceEventView::CustomMessage {
                    index,
                    protocol,
                    data: Some(bytes@),
                }),
                None => event@ == (ServiceEventView::CustomMessage { index, protocol, data: None }),
            },
            ServiceEvent::NodeInfo { index, endpoint, listen_address } => event@ == (
            ServiceEventView::NodeInfo {
                index,
                endpoint,
                listen_address: addrs_view(listen_address@),
            }),
        },
{
}

/// What the contracts say of lists holds of the lists themselves: they have the same
/// length, and each item stands in its place.
pub proof fn law_lists_are_what_they_say<R>(
    addrs: Seq<Multiaddr>,
    actions: Seq<SwarmAction<R>>,
    messages: Seq<(Vec<usize>, usize, Request)>,
    i: int,
)
    ensures
        addrs_view(addrs).len() == addrs.len(),
        actions_view(actions).len() == actions.len(),
        messages_view(messages).len() == messages.len(),
        0 <= i < addrs.len() ==> addrs_view(addrs)[i] == addrs[i]@,
        0 <= i < actions.len() ==> match actions[i] {
            SwarmAction::Dial(addr) => actions_view(actions)[i] == SwarmActionView::<R>::Dial(addr@),
            SwarmAction::Close(id) => actions_view(actions)[i] == SwarmActionView::<R>::Close(id@),
            SwarmAction::Accept => actions_view(actions)[i] == SwarmActionView::<R>::Accept,
            SwarmAction::Respond { .. } => actions_view(actions)[i] is Respond,
            SwarmAction::SendEvent { node, event } => actions_view(actions)[i] == (
            SwarmActionView::<R>::SendEvent { node: node@, event: event@ }),
            SwarmAction::BroadcastEvent { event } => actions_view(actions)[i] == (
            SwarmActionView::<R>::BroadcastEvent { event: event@ }),
        },
        0 <= i < messages.len() ==> {
            let message = messages_view(messages)[i];
            &&& message.indexes == messages[i].0@
            &&& message.protocol == messages[i].1
            &&& message.data == messages[i].2@
        },
{
}

/// A peer is known exactly if it has an index.
pub proof fn law_known_peers_have_an_index(s: ServiceView, id: Seq<u8>)
    ensures
        s.known(id) <==> s.peer_index.contains_key(id),
{
}

} // verus!
