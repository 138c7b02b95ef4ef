//! What holds of the service as a whole.

use vstd::prelude::*;
use crate::address::Endpoint;
use crate::cita_handler::{CITAInEventView, CITAOutEvent};
use crate::service::lemmas::{
    lemma_after_swarm, lemma_dropped, lemma_filter_from, lemma_joined, lemma_recorded,
    lemma_side_insert, lemma_side_remove,
};
use crate::service::model::{
    merged, on_side, room_left, NodeInfoView, OutgoingView, ServiceEventView, ServiceView,
    SwarmActionView,
};
use crate::service::{RawSwarmEvent, MAX_INBOUND, MAX_OUTBOUND};

verus! {

/// The index of a peer leads to the node that bears the peer's id.
pub proof fn law_index_leads_to_peer(s: ServiceView, id: Seq<u8>)
    requires
        s.wf(),
        s.known(id),
    ensures
        s.connected_nodes.contains_key(s.peer_index[id]),
        s.connected_nodes[s.peer_index[id]].id == id,
{
}

/// Two peers never share an index.
pub proof fn law_indexes_are_distinct(s: ServiceView, a: Seq<u8>, b: Seq<u8>)
    requires
        s.wf(),
        s.known(a),
        s.known(b),
        a != b,
    ensures
        s.peer_index[a] != s.peer_index[b],
{
    assert(s.connected_nodes[s.peer_index[a]].id == a);
    assert(s.connected_nodes[s.peer_index[b]].id == b);
}

/// There are always fewer outbound nodes than their limit.
pub proof fn law_outbound_limit(s: ServiceView)
    requires
        s.wf(),
    ensures
        on_side(s.connected_nodes, Endpoint::Dialer).len() < MAX_OUTBOUND,
{
}

/// There are always fewer inbound nodes than their limit.
pub proof fn law_inbound_limit(s: ServiceView)
    requires
        s.wf(),
    ensures
        on_side(s.connected_nodes, Endpoint::Listener).len() < MAX_INBOUND,
{
}

/// There are always fewer connected nodes than the two limits together.
pub proof fn law_connections_are_limited(s: ServiceView)
    requires
        s.wf(),
    ensures
        s.connected_nodes.dom().len() < MAX_OUTBOUND + MAX_INBOUND,
{
    let dialed = on_side(s.connected_nodes, Endpoint::Dialer);
    let accepted = on_side(s.connected_nodes, Endpoint::Listener);
    let nodes = s.connected_nodes;
    nodes.dom().lemma_len_filter(|i: usize| nodes[i].endpoint == Endpoint::Dialer);
    nodes.dom().lemma_len_filter(|i: usize| nodes[i].endpoint == Endpoint::Listener);
    assert(nodes.dom() =~= dialed.union(accepted));
    vstd::set_lib::lemma_set_disjoint_lens(dialed, accepted);
}

/// Whatever the swarm reports, the service is afterwards as it is between events.
pub proof fn law_swarm_keeps_wf<R>(
    s: ServiceView,
    event: RawSwarmEvent<R>,
    reachable: Seq<Seq<u8>>,
)
    requires
        s.wf(),
        s.admits(event),
    ensures
        s.after_swarm(event, reachable).wf(),
{
    lemma_after_swarm(s, event, reachable);
}

/// A node that is connected while there is room gets an index that no node has, and is
/// found under it.
pub proof fn law_connected_is_found<R>(
    s: ServiceView,
    event: RawSwarmEvent<R>,
    reachable: Seq<Seq<u8>>,
)
    requires
        s.wf(),
        s.admits(event),
        event is Connected,
        room_left(s.recorded(event).outbound_num as int, s.recorded(event).inbound_num as int),
    ensures
        ({
            let t = s.after_swarm(event, reachable);
            let id = event->Connected_peer_id@;
            let point = event->Connected_endpoint;
            &&& !s.connected_nodes.contains_key(s.next_index)
            &&& t.known(id)
            &&& t.peer_index[id] == s.next_index
            &&& t.connected_nodes[s.next_index] == (NodeInfoView {
                id,
                endpoint: point.side(),
                address: point.address(),
            })
            &&& s.swarm_actions(event).len() == 0
            &&& s.swarm_report(event) is None
        }),
{
    let point = event->Connected_endpoint;
    lemma_joined(
        s,
        NodeInfoView {
            id: event->Connected_peer_id@,
            endpoint: point.side(),
            address: point.address(),
        },
    );
}

/// A connection to a new peer that is one too many is closed, and the service is as it
/// was before.
pub proof fn law_over_limit_is_undone<R>(
    s: ServiceView,
    event: RawSwarmEvent<R>,
    reachable: Seq<Seq<u8>>,
)
    requires
        s.wf(),
        s.admits(event),
        event is Connected,
        !s.known(event->Connected_peer_id@),
        !room_left(s.recorded(event).outbound_num as int, s.recorded(event).inbound_num as int),
    ensures
        s.after_swarm(event, reachable) == s,
        s.swarm_actions(event) == seq![SwarmActionView::<R>::Close(event->Connected_peer_id@)],
        s.swarm_report(event) is None,
{
    let point = event->Connected_endpoint;
    let id = event->Connected_peer_id@;
    lemma_joined(s, NodeInfoView { id, endpoint: point.side(), address: point.address() });
    let t = s.after_swarm(event, reachable);
    assert(t.connected_nodes =~= s.connected_nodes);
    assert(t.peer_index =~= s.peer_index);
    assert(t =~= s);
}

/// A peer that was dropped has no index, and its node is gone; every other peer keeps
/// its index and its node; and to drop it again changes nothing.
pub proof fn law_dropped_is_gone(s: ServiceView, id: Seq<u8>, other: Seq<u8>)
    requires
        s.wf(),
    ensures
        s.dropped(id).wf(),
        !s.dropped(id).known(id),
        s.known(id) ==> !s.dropped(id).connected_nodes.contains_key(s.peer_index[id]),
        other != id && s.known(other) ==> {
            let index = s.peer_index[other];
            &&& s.dropped(id).known(other)
            &&& s.dropped(id).peer_index[other] == index
            &&& s.dropped(id).connected_nodes.contains_key(index)
            &&& s.dropped(id).connected_nodes[index] == s.connected_nodes[index]
        },
        s.dropped(id).dropped(id) == s.dropped(id),
{
    lemma_dropped(s, id);
    if other != id && s.known(other) && s.known(id) {
        law_indexes_are_distinct(s, id, other);
    }
}

/// A node that is of no more use, or that closed a custom protocol, is dropped, its
/// connection is closed, and the report names the index that it had.
pub proof fn law_lost_node_is_dropped<R>(
    s: ServiceView,
    id: Seq<u8>,
    event: CITAOutEvent<R>,
    reachable: Seq<Seq<u8>>,
)
    requires
        s.wf(),
        s.known(id),
        event is Useless || event is CustomProtocolClosed,
    ensures
        !s.after_event(id, event, reachable).known(id),
        !s.after_event(id, event, reachable).connected_nodes.contains_key(s.peer_index[id]),
        s.event_actions(id, event) == seq![SwarmActionView::<R>::Close(id)],
        match event {
            CITAOutEvent::CustomProtocolClosed { protocol } => s.event_report(id, event) == Some(
                ServiceEventView::CustomProtocolClosed { index: s.peer_index[id], protocol },
            ),
            _ => s.event_report(id, event) == Some(
                ServiceEventView::NodeClosed { index: s.peer_index[id] },
            ),
        },
{
}

/// The event is the replacement of a known peer's connection.
pub open spec fn replaces<R>(s: ServiceView, event: RawSwarmEvent<R>) -> bool {
    event is Replaced && s.known(event->Replaced_peer_id@)
}

/// Dropping a peer takes from the counts what it takes from the nodes.
pub proof fn law_dropping_keeps_balance(s: ServiceView, id: Seq<u8>)
    requires
        s.wf(),
        s.balanced(),
    ensures
        s.dropped(id).balanced(),
{
    lemma_balance_dropped(s, id);
}

proof fn lemma_balance_dropped(s: ServiceView, id: Seq<u8>)
    requires
        s.consistent(),
        s.balanced(),
    ensures
        s.dropped(id).balanced(),
{
    lemma_dropped(s, id);
    if s.known(id) {
        lemma_side_remove(s.connected_nodes, s.peer_index[id], Endpoint::Dialer);
        lemma_side_remove(s.connected_nodes, s.peer_index[id], Endpoint::Listener);
    }
}

/// The counts of connections are those of the connected nodes, as long as no connection
/// of a known peer is replaced: a replaced connection stays counted.
pub proof fn law_swarm_keeps_balance<R>(
    s: ServiceView,
    event: RawSwarmEvent<R>,
    reachable: Seq<Seq<u8>>,
)
    requires
        s.wf(),
        s.balanced(),
        s.admits(event),
        !replaces(s, event),
    ensures
        s.after_swarm(event, reachable).balanced(),
{
    lemma_recorded(s, event);
    let r = s.recorded(event);
    if let RawSwarmEvent::Connected { peer_id, endpoint } = event {
        let node = NodeInfoView {
            id: peer_id@,
            endpoint: endpoint.side(),
            address: endpoint.address(),
        };
        lemma_joined(s, node);
        lemma_side_insert(s.connected_nodes, s.next_index, node, Endpoint::Dialer);
        lemma_side_insert(s.connected_nodes, s.next_index, node, Endpoint::Listener);
    }
    assert(r.balanced());
    if let Some((id, raised)) = s.raised(event) {
        lemma_balance_dropped(r, id);
    }
}

/// Each node is the one that its peer id leads to.
pub open spec fn one_node_per_peer(s: ServiceView) -> bool {
    forall|i: usize| #[trigger]
        s.connected_nodes.contains_key(i) ==> s.known(s.connected_nodes[i].id)
            && s.peer_index[s.connected_nodes[i].id] == i
}

/// As long as the swarm connects only peers that are not connected, each node is the one
/// that its peer id leads to.
pub proof fn law_swarm_keeps_one_node_per_peer<R>(
    s: ServiceView,
    event: RawSwarmEvent<R>,
    reachable: Seq<Seq<u8>>,
)
    requires
        s.wf(),
        one_node_per_peer(s),
        s.admits(event),
        event is Connected ==> !s.known(event->Connected_peer_id@),
    ensures
        one_node_per_peer(s.after_swarm(event, reachable)),
{
    lemma_recorded(s, event);
    let r = s.recorded(event);
    assert(one_node_per_peer(r)) by {
        assert forall|i: usize| #[trigger] r.connected_nodes.contains_key(i) implies r.known(
            r.connected_nodes[i].id,
        ) && r.peer_index[r.connected_nodes[i].id] == i by {
            if event is Connected && i == s.next_index {
            } else {
                assert(s.connected_nodes.contains_key(i));
            }
        }
    }
    if let Some((id, raised)) = s.raised(event) {
        lemma_one_node_dropped(r, id);
    }
}

proof fn lemma_one_node_dropped(s: ServiceView, id: Seq<u8>)
    requires
        s.consistent(),
        one_node_per_peer(s),
    ensures
        one_node_per_peer(s.dropped(id)),
{
    let t = s.dropped(id);
    assert forall|i: usize| #[trigger] t.connected_nodes.contains_key(i) implies t.known(
        t.connected_nodes[i].id,
    ) && t.peer_index[t.connected_nodes[i].id] == i by {
        assert(s.connected_nodes.contains_key(i));
    }
}

/// When addresses are dialed again, each that was to be reached is dialed once, the last
/// one first, and none is left.
pub proof fn law_redial_empties<R>(s: ServiceView, id: Seq<u8>, reachable: Seq<Seq<u8>>)
    ensures
        s.after_event(id, CITAOutEvent::<R>::NeedReDial, reachable).need_connect.len() == 0,
        s.event_actions(id, CITAOutEvent::<R>::NeedReDial).len() == s.need_connect.len(),
        forall|i: int|
            0 <= i < s.need_connect.len() ==> #[trigger] s.event_actions(
                id,
                CITAOutEvent::<R>::NeedReDial,
            )[i] == SwarmActionView::<R>::Dial(s.need_connect[s.need_connect.len() - 1 - i]),
{
}

/// An address that could not be dialed is the first to be dialed again, at once, and
/// nothing else is reported of it.
pub proof fn law_failed_dial_is_redialed<R>(
    s: ServiceView,
    event: RawSwarmEvent<R>,
    reachable: Seq<Seq<u8>>,
)
    requires
        event is DialError || event is UnknownPeerDialError,
    ensures
        s.swarm_actions(event).len() == s.need_connect.len() + 1,
        match event {
            RawSwarmEvent::DialError { multiaddr } => s.swarm_actions(event)[0]
                == SwarmActionView::<R>::Dial(multiaddr@),
            RawSwarmEvent::UnknownPeerDialError { multiaddr } => s.swarm_actions(event)[0]
                == SwarmActionView::<R>::Dial(multiaddr@),
            _ => false,
        },
        s.after_swarm(event, reachable).need_connect.len() == 0,
        s.swarm_report(event) is None,
{
}

/// Addresses that are taken up come after those that were known, none is lost, and none
/// stands twice that did not stand twice before.
pub proof fn law_merged(known: Seq<Seq<u8>>, found: Seq<Seq<u8>>)
    ensures
        known.len() <= merged(known, found).len(),
        merged(known, found).take(known.len() as int) == known,
        forall|a: Seq<u8>| #[trigger]
            merged(known, found).contains(a) <==> known.contains(a) || found.contains(a),
        known.no_duplicates() ==> merged(known, found).no_duplicates(),
    decreases found.len(),
{
    if found.len() == 0 {
        assert(known.take(known.len() as int) =~= known);
    } else {
        let init = found.drop_last();
        let before = merged(known, init);
        let after = merged(known, found);
        law_merged(known, init);
        if !before.contains(found.last()) {
            assert(after.take(known.len() as int) =~= before.take(known.len() as int));
        }
        assert forall|a: Seq<u8>| #[trigger]
            after.contains(a) <==> known.contains(a) || found.contains(a) by {
            assert(found.contains(a) <==> init.contains(a) || a == found.last()) by {
                if found.contains(a) {
                    let i = choose|i: int| 0 <= i < found.len() && found[i] == a;
                    if i < init.len() {
                        assert(init[i] == a);
                    }
                }
                if init.contains(a) {
                    let i = choose|i: int| 0 <= i < init.len() && init[i] == a;
                    assert(found[i] == a);
                }
                if a == found.last() {
                    assert(found[found.len() - 1] == a);
                }
            }
            if !before.contains(found.last()) {
                assert(after.contains(a) <==> before.contains(a) || a == found.last()) by {
                    if after.contains(a) {
                        let i = choose|i: int| 0 <= i < after.len() && after[i] == a;
                        if i < before.len() {
                            assert(before[i] == a);
                        }
                    }
                    if before.contains(a) {
                        let i = choose|i: int| 0 <= i < before.len() && before[i] == a;
                        assert(after[i] == a);
                    }
                    if a == found.last() {
                        assert(after[before.len() as int] == a);
                    }
                }
            }
        }
    }
}

/// A message that names nodes goes to each of them that is connected, and to nobody
/// else; one that names none goes to everybody, once.
pub proof fn law_message_reaches_named_nodes<R>(s: ServiceView, message: OutgoingView)
    ensures
        message.indexes.len() == 0 ==> s.message_actions::<R>(message) == seq![
            SwarmActionView::<R>::BroadcastEvent {
                event: CITAInEventView::SendCustomMessage {
                    protocol: message.protocol,
                    data: message.data,
                },
            },
        ],
        message.indexes.len() > 0 ==> forall|action: SwarmActionView<R>| #[trigger]
            s.message_actions::<R>(message).contains(action) <==> exists|i: usize| #[trigger]
                message.indexes.contains(i) && s.connected_nodes.contains_key(i) && action == (
                SwarmActionView::<R>::SendEvent {
                    node: s.connected_nodes[i].id,
                    event: CITAInEventView::SendCustomMessage {
                        protocol: message.protocol,
                        data: message.data,
                    },
                }),
{
    if message.indexes.len() > 0 {
        let event = CITAInEventView::SendCustomMessage {
            protocol: message.protocol,
            data: message.data,
        };
        let here = |i: usize| s.connected_nodes.contains_key(i);
        let send = |i: usize|
            SwarmActionView::<R>::SendEvent { node: s.connected_nodes[i].id, event };
        let named = message.indexes.filter(here);
        let sent = s.message_actions::<R>(message);
        assert(sent == named.map_values(send));
        broadcast use vstd::seq_lib::group_filter_ensures;
        assert forall|action: SwarmActionView<R>| #[trigger] sent.contains(action) implies exists|
            i: usize,
        | #[trigger]
            message.indexes.contains(i) && s.connected_nodes.contains_key(i) && action == send(i) by {
            let k = choose|k: int| 0 <= k < sent.len() && sent[k] == action;
            lemma_filter_from(message.indexes, here, k);
            assert(message.indexes.contains(named[k]) && action == send(named[k]));
        }
        assert forall|action: SwarmActionView<R>|
            (exists|i: usize| #[trigger]
                message.indexes.contains(i) && s.connected_nodes.contains_key(i) && action == send(
                    i,
                )) implies #[trigger] sent.contains(action) by {
            let i = choose|i: usize| #[trigger]
                message.indexes.contains(i) && s.connected_nodes.contains_key(i) && action == send(
                    i,
                );
            assert(here(i));
            let p = choose|p: int| 0 <= p < message.indexes.len() && message.indexes[p] == i;
            assert(named.contains(message.indexes[p]));
            let k = choose|k: int| 0 <= k < named.len() && named[k] == i;
            assert(sent[k] == action);
        }
    }
}

/// Once nodes were disconnected, none of them is connected any more, and every other
/// node still is.
pub proof fn law_disconnected_are_gone(s: ServiceView, indexes: Seq<usize>)
    requires
        s.wf(),
        one_node_per_peer(s),
    ensures
        s.disconnected(indexes).wf(),
        one_node_per_peer(s.disconnected(indexes)),
        forall|i: usize| #[trigger]
            s.disconnected(indexes).connected_nodes.contains_key(i)
                <==> s.connected_nodes.contains_key(i) && !indexes.contains(i),
        forall|i: usize| #[trigger]
            s.disconnected(indexes).connected_nodes.contains_key(i)
                ==> s.disconnected(indexes).connected_nodes[i] == s.connected_nodes[i],
    decreases indexes.len(),
{
    if indexes.len() > 0 {
        let init = indexes.drop_last();
        let before = s.disconnected(init);
        let after = s.disconnected(indexes);
        let last = indexes.last();
        law_disconnected_are_gone(s, init);
        assert forall|i: usize| indexes.contains(i) <==> init.contains(i) || i == last by {
            if indexes.contains(i) {
                let k = choose|k: int| 0 <= k < indexes.len() && indexes[k] == i;
                if k < init.len() {
                    assert(init[k] == i);
                }
            }
            if init.contains(i) {
                let k = choose|k: int| 0 <= k < init.len() && init[k] == i;
                assert(indexes[k] == i);
            }
            assert(indexes[indexes.len() - 1] == last);
        }
        if before.connected_nodes.contains_key(last) {
            let id = before.connected_nodes[last].id;
            lemma_dropped(before, id);
            lemma_one_node_dropped(before, id);
            assert(after.connected_nodes == before.connected_nodes.remove(last));
        }
    }
}

/// Dropping, disconnecting and sending leave the addresses of this node, and those that
/// are still to be reached, alone.
pub proof fn law_disconnecting_touches_nodes_only(s: ServiceView, indexes: Seq<usize>)
    ensures
        s.disconnected(indexes).listening_address == s.listening_address,
        s.disconnected(indexes).need_connect == s.need_connect,
        s.disconnected(indexes).local_peer_id == s.local_peer_id,
        s.disconnected(indexes).local_public_key == s.local_public_key,
        s.disconnected(indexes).next_index == s.next_index,
    decreases indexes.len(),
{
    if indexes.len() > 0 {
        law_disconnecting_touches_nodes_only(s, indexes.drop_last());
    }
}

/// The service's own identity never changes.
pub proof fn law_identity_is_kept<R>(
    s: ServiceView,
    event: RawSwarmEvent<R>,
    reachable: Seq<Seq<u8>>,
)
    ensures
        s.after_swarm(event, reachable).local_peer_id == s.local_peer_id,
        s.after_swarm(event, reachable).local_public_key == s.local_public_key,
{
}

} // verus!
