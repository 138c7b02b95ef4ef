//! Why the state of the service stays consistent.

use vstd::prelude::*;
use crate::address::Endpoint;
use crate::cita_handler::CITAOutEvent;
use crate::service::model::{on_side, NodeInfoView, ServiceView};
use crate::service::RawSwarmEvent;

verus! {

/// A node under a fresh index adds one to the nodes on its side.
pub proof fn lemma_side_insert(
    nodes: Map<usize, NodeInfoView>,
    index: usize,
    node: NodeInfoView,
    endpoint: Endpoint,
)
    requires
        nodes.dom().finite(),
        !nodes.contains_key(index),
    ensures
        on_side(nodes.insert(index, node), endpoint).len() == on_side(nodes, endpoint).len()
            + if node.endpoint == endpoint { 1nat } else { 0nat },
{
    let before = on_side(nodes, endpoint);
    let after = on_side(nodes.insert(index, node), endpoint);
    nodes.dom().lemma_len_filter(|i: usize| nodes[i].endpoint == endpoint);
    if node.endpoint == endpoint {
        assert(after =~= before.insert(index));
    } else {
        assert(after =~= before);
    }
}

/// Taking a node out takes one from the nodes on its side.
pub proof fn lemma_side_remove(
    nodes: Map<usize, NodeInfoView>,
    index: usize,
    endpoint: Endpoint,
)
    requires
        nodes.dom().finite(),
        nodes.contains_key(index),
    ensures
        on_side(nodes, endpoint).len() == on_side(nodes.remove(index), endpoint).len()
            + if nodes[index].endpoint == endpoint { 1nat } else { 0nat },
{
    let before = on_side(nodes, endpoint);
    let after = on_side(nodes.remove(index), endpoint);
    nodes.dom().lemma_len_filter(|i: usize| nodes[i].endpoint == endpoint);
    if nodes[index].endpoint == endpoint {
        assert(after =~= before.remove(index));
        assert(before.contains(index));
    } else {
        assert(after =~= before);
    }
}

/// Dropping a peer keeps the service consistent, and counts no lower than zero.
pub proof fn lemma_dropped(s: ServiceView, id: Seq<u8>)
    requires
        s.consistent(),
    ensures
        s.dropped(id).consistent(),
        s.dropped(id).outbound_num <= s.outbound_num,
        s.dropped(id).inbound_num <= s.inbound_num,
        s.known(id) ==> {
            let node = s.connected_nodes[s.peer_index[id]];
            &&& s.connected_nodes.contains_key(s.peer_index[id])
            &&& node.endpoint == Endpoint::Dialer ==> s.outbound_num >= 1
            &&& node.endpoint == Endpoint::Listener ==> s.inbound_num >= 1
        },
{
    if s.known(id) {
        let index = s.peer_index[id];
        lemma_side_remove(s.connected_nodes, index, Endpoint::Dialer);
        lemma_side_remove(s.connected_nodes, index, Endpoint::Listener);
        let t = s.dropped(id);
        assert forall|other: Seq<u8>| #[trigger] t.peer_index.contains_key(other) implies
            t.connected_nodes.contains_key(t.peer_index[other])
            && t.connected_nodes[t.peer_index[other]].id == other by {
            assert(s.peer_index.contains_key(other));
            assert(s.connected_nodes[s.peer_index[other]].id == other);
            assert(s.connected_nodes[index].id == id);
        }
        assert forall|i: usize| #[trigger] t.connected_nodes.contains_key(i) implies i
            < t.next_index by {
            assert(s.connected_nodes.contains_key(i));
        }
    }
}

/// Adding a node keeps the service consistent.
pub proof fn lemma_joined(s: ServiceView, node: NodeInfoView)
    requires
        s.consistent(),
        s.next_index < usize::MAX,
        s.outbound_num < usize::MAX,
    ensures
        s.joined(node).consistent(),
        !s.connected_nodes.contains_key(s.next_index),
{
    let index = s.next_index;
    assert(!s.connected_nodes.contains_key(index));
    lemma_side_insert(s.connected_nodes, index, node, Endpoint::Dialer);
    lemma_side_insert(s.connected_nodes, index, node, Endpoint::Listener);
    let t = s.joined(node);
    assert forall|other: Seq<u8>| #[trigger] t.peer_index.contains_key(other) implies
        t.connected_nodes.contains_key(t.peer_index[other])
        && t.connected_nodes[t.peer_index[other]].id == other by {
        if other != node.id {
            assert(s.peer_index.contains_key(other));
            assert(s.connected_nodes.contains_key(s.peer_index[other]));
        }
    }
    assert forall|i: usize| #[trigger] t.connected_nodes.contains_key(i) implies i < t.next_index by {
        if i != index {
            assert(s.connected_nodes.contains_key(i));
        }
    }
}

/// Forgetting a replaced peer keeps the service consistent.
pub proof fn lemma_replaced(s: ServiceView, id: Seq<u8>)
    requires
        s.consistent(),
    ensures
        s.replaced(id).consistent(),
{
    if s.known(id) {
        let index = s.peer_index[id];
        assert(s.connected_nodes.contains_key(index));
        lemma_side_remove(s.connected_nodes, index, Endpoint::Dialer);
        lemma_side_remove(s.connected_nodes, index, Endpoint::Listener);
        let t = s.replaced(id);
        assert forall|other: Seq<u8>| #[trigger] t.peer_index.contains_key(other) implies
            t.connected_nodes.contains_key(t.peer_index[other])
            && t.connected_nodes[t.peer_index[other]].id == other by {
            assert(s.peer_index.contains_key(other));
            assert(s.connected_nodes[s.peer_index[other]].id == other);
            assert(s.connected_nodes[index].id == id);
        }
        assert forall|i: usize| #[trigger] t.connected_nodes.contains_key(i) implies i
            < t.next_index by {
            assert(s.connected_nodes.contains_key(i));
        }
    }
}

/// An event that the service expects keeps it consistent and counts no connection
/// more. Where the event is that of a node too many, the node's index is free again.
pub proof fn lemma_after_event<R>(
    s: ServiceView,
    id: Seq<u8>,
    event: CITAOutEvent<R>,
    reachable: Seq<Seq<u8>>,
)
    requires
        s.consistent(),
        s.expects(id, event),
    ensures
        s.after_event(id, event, reachable).consistent(),
        s.after_event(id, event, reachable).outbound_num <= s.outbound_num,
        s.after_event(id, event, reachable).inbound_num <= s.inbound_num,
{
    lemma_dropped(s, id);
    if event is OverMaxConnection {
        let t = s.dropped(id);
        let u = s.after_event(id, event, reachable);
        assert(s.known(id));
        assert(s.connected_nodes.contains_key(s.peer_index[id]));
        assert forall|i: usize| #[trigger] u.connected_nodes.contains_key(i) implies i
            < u.next_index by {
            assert(s.connected_nodes.contains_key(i));
            assert(i != s.peer_index[id]);
        }
        assert forall|other: Seq<u8>| #[trigger] u.peer_index.contains_key(other) implies
            u.connected_nodes.contains_key(u.peer_index[other])
            && u.connected_nodes[u.peer_index[other]].id == other by {
            assert(t.peer_index.contains_key(other));
        }
    }
}

/// Recording what the swarm reports keeps the service consistent, and the event that
/// comes of it is one that the service expects.
pub proof fn lemma_recorded<R>(s: ServiceView, event: RawSwarmEvent<R>)
    requires
        s.wf(),
        s.admits(event),
    ensures
        s.recorded(event).consistent(),
        s.raised(event) matches Some((id, raised)) ==> s.recorded(event).expects(id, raised),
        event is Connected || s.recorded(event).outbound_num == s.outbound_num,
        event is Connected || s.recorded(event).inbound_num == s.inbound_num,
{
    match event {
        RawSwarmEvent::Connected { peer_id, endpoint } => {
            lemma_joined(
                s,
                NodeInfoView {
                    id: peer_id@,
                    endpoint: endpoint.side(),
                    address: endpoint.address(),
                },
            );
        },
        RawSwarmEvent::Replaced { peer_id } => {
            lemma_replaced(s, peer_id@);
        },
        _ => {},
    }
}

/// An event of the swarm that the service admits leaves it as it is between events.
pub proof fn lemma_after_swarm<R>(
    s: ServiceView,
    event: RawSwarmEvent<R>,
    reachable: Seq<Seq<u8>>,
)
    requires
        s.wf(),
        s.admits(event),
    ensures
        s.after_swarm(event, reachable).wf(),
{
    lemma_recorded(s, event);
    if let Some((id, raised)) = s.raised(event) {
        lemma_after_event(s.recorded(event), id, raised, reachable);
    }
}

/// What a filter leaves was there before.
pub proof fn lemma_filter_from<A>(s: Seq<A>, pred: spec_fn(A) -> bool, k: int)
    requires
        0 <= k < s.filter(pred).len(),
    ensures
        s.contains(s.filter(pred)[k]),
    decreases s.len(),
{
    reveal(Seq::filter);
    if s.len() > 0 {
        let init = s.drop_last();
        if k < init.filter(pred).len() {
            lemma_filter_from(init, pred, k);
            let p = choose|p: int| 0 <= p < init.len() && init[p] == init.filter(pred)[k];
            assert(s[p] == s.filter(pred)[k]);
        } else {
            assert(s[s.len() - 1] == s.filter(pred)[k]);
        }
    }
}

} // verus!
