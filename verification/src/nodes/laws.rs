//! What holds of the addresses that nodes tell each other.

use vstd::prelude::*;
use crate::address::Endpoint;
use crate::nodes::{
    addrs_from_json, answers, is_step, passes_on, returned_addrs, widened, EventStep, MessageType,
    MessageView, NodesView, Outgoing,
};
use crate::service::ServiceEvent;

verus! {

/// What a node knows stays known: no message takes an address or a connection away, or
/// gives it another number.
pub proof fn law_nothing_is_forgotten(s: NodesView, index: usize, protocol: usize, msg: MessageView)
    ensures
        s.node_addrs.submap_of(s.after_message(index, protocol, msg).node_addrs),
        s.node_conns.submap_of(s.after_message(index, protocol, msg).node_conns),
{
}

/// Nor does an event of the service.
pub proof fn law_events_forget_nothing(s: NodesView, event: ServiceEvent)
    ensures
        s.after_event(event).node_addrs == s.node_addrs,
        s.node_conns.submap_of(s.after_event(event).node_conns),
{
}

/// An address that is shared is known afterwards, whoever shared it; of a node that
/// knew it before, nothing changes.
pub proof fn law_shared_address_is_known(
    s: NodesView,
    index: usize,
    protocol: usize,
    msg: MessageView,
)
    requires
        msg.mtype != MessageType::ReturnNodeAddrs,
    ensures
        s.after_message(index, protocol, msg).node_addrs.contains_key(msg.data),
        s.node_addrs.contains_key(msg.data) ==> s.after_message(index, protocol, msg) == s,
{
}

/// Hearing a message twice is as good as hearing it once.
pub proof fn law_repeated_message_changes_nothing(
    s: NodesView,
    index: usize,
    protocol: usize,
    msg: MessageView,
)
    ensures
        s.after_message(index, protocol, msg).after_message(index, protocol, msg)
            == s.after_message(index, protocol, msg),
{
    assert(s.after_message(index, protocol, msg).after_message(index, protocol, msg)
        =~= s.after_message(index, protocol, msg));
}

/// It does not matter in which order two addresses are heard of.
pub proof fn law_order_of_addresses_is_irrelevant(s: NodesView, a: Seq<char>, b: Seq<char>)
    ensures
        s.heard(a).heard(b) == s.heard(b).heard(a),
{
    assert(s.heard(a).heard(b) =~= s.heard(b).heard(a));
}

/// An address is passed on to every connected node but the one it came from, and to
/// nobody else.
pub proof fn law_passed_on_to_all_others(s: NodesView, index: usize, addr: Seq<char>, out: Outgoing)
    requires
        passes_on(out, s.neighbours(index), addr),
    ensures
        !out.indexes@.contains(index),
        forall|i: usize|
            i != index ==> (#[trigger] out.indexes@.contains(i) <==> s.node_conns.contains_key(i)),
{
    assert forall|i: usize| i != index implies (#[trigger] out.indexes@.contains(i)
        <==> s.node_conns.contains_key(i)) by {
        assert(out.indexes@.to_set().contains(i) == out.indexes@.contains(i));
    }
    assert(out.indexes@.to_set().contains(index) == out.indexes@.contains(index));
}

/// A node that shares its address with another one, and takes the answer, knows every
/// address that the other one knows, its own among them, and still knows those it knew;
/// and it has taken note of the other one.
pub proof fn law_answer_teaches_all_addresses(
    asked: NodesView,
    from: usize,
    share: MessageView,
    outs: Seq<Outgoing>,
    asking: NodesView,
    index: usize,
    protocol: usize,
)
    requires
        share.mtype == MessageType::ShareAddr,
        answers(asked, from, share, outs),
    ensures
        returned_addrs(outs[0].message@.data) is Some,
        ({
            let after = asking.after_message(index, protocol, outs[0].message@);
            &&& after.node_addrs.dom() == asked.node_addrs.dom().insert(share.data).union(
                asking.node_addrs.dom(),
            )
            &&& after.node_conns.contains_key(index)
        }),
{
    let known = asked.heard(share.data).node_addrs;
    let sent = widened(known);
    assert forall|addr: Seq<char>| #[trigger] sent.contains_key(addr) implies sent[addr]
        <= usize::MAX by {
        assert(sent[addr] == known[addr] as u64);
    }
    let after = asking.after_message(index, protocol, outs[0].message@);
    assert(sent.dom() =~= asked.node_addrs.dom().insert(share.data));
    assert(after.node_addrs.dom() =~= asked.node_addrs.dom().insert(share.data).union(
        asking.node_addrs.dom(),
    ));
}

/// A node that dials in is taken note of, on whichever protocol it was met: it is connected
/// afterwards, under that protocol where it was not connected before, and no other node
/// is. Any other event changes nothing.
pub proof fn law_node_that_dials_in_is_met(s: NodesView, event: ServiceEvent)
    ensures
        s.after_event(event).node_addrs == s.node_addrs,
        event matches ServiceEvent::CustomProtocolOpen { index, protocol, node_info, .. } ==> {
            let t = s.after_event(event);
            node_info.endpoint == Endpoint::Listener ==> {
                &&& t.node_conns.contains_key(index)
                &&& !s.node_conns.contains_key(index) ==> t.node_conns[index] == protocol
                &&& s.node_conns.contains_key(index) ==> t.node_conns[index]
                    == s.node_conns[index]
                &&& forall|i: usize|
                    i != index ==> (#[trigger] t.node_conns.contains_key(i)
                        <==> s.node_conns.contains_key(i))
                &&& forall|i: usize|
                    i != index && #[trigger] s.node_conns.contains_key(i) ==> t.node_conns[i]
                        == s.node_conns[i]
            }
        },
        event matches ServiceEvent::CustomProtocolOpen { node_info, .. } ==> (node_info.endpoint
            == Endpoint::Dialer ==> s.after_event(event) == s),
        event !is CustomProtocolOpen ==> s.after_event(event) == s,
{
}

/// Once this node has dialed another one, it shares its own address with it, and with
/// nobody else; a node that dialed in is told nothing yet.
pub proof fn law_dialer_shares_its_address(event: ServiceEvent, localaddr: Seq<char>, step: EventStep)
    requires
        is_step(event, localaddr, step),
        event is CustomProtocolOpen,
    ensures
        event matches ServiceEvent::CustomProtocolOpen { index, node_info, .. } ==> {
            &&& node_info.endpoint == Endpoint::Dialer ==> (step matches EventStep::Send(out) && {
                &&& out.indexes@.len() == 1
                &&& out.indexes@[0] == index
                &&& out.protocol == 0
                &&& out.message.mtype == MessageType::ShareAddr
                &&& out.message.data@ == localaddr
                &&& out.message.timestamp == 0
            })
            &&& node_info.endpoint == Endpoint::Listener ==> step is Done
        },
{
}

/// Every message that carries something is to be decoded, with the node and the protocol
/// it came on, and its bytes unchanged; whatever else happens asks for nothing.
pub proof fn law_messages_are_decoded(event: ServiceEvent, localaddr: Seq<char>, step: EventStep)
    requires
        is_step(event, localaddr, step),
        event !is CustomProtocolOpen,
    ensures
        match event {
            ServiceEvent::CustomMessage { index, protocol, data } => match data {
                Some(value) => step matches EventStep::Decode { index: i, protocol: p, data: d }
                    && i == index && p == protocol && d == value,
                None => step is Done,
            },
            _ => step is Done,
        },
{
}

/// An address that is shared or passed on is known afterwards, with the number that it had,
/// or none; of all others, and of the connections, nothing changes, whoever it came from.
pub proof fn law_one_address_is_learned(
    s: NodesView,
    index: usize,
    protocol: usize,
    msg: MessageView,
    other: Seq<char>,
)
    requires
        msg.mtype == MessageType::ShareAddr || msg.mtype == MessageType::PassShareAddr,
        other != msg.data,
    ensures
        ({
            let t = s.after_message(index, protocol, msg);
            &&& t.node_addrs.contains_key(msg.data)
            &&& t.node_addrs[msg.data] == if s.node_addrs.contains_key(msg.data) {
                s.node_addrs[msg.data]
            } else {
                0
            }
            &&& t.node_addrs.contains_key(other) == s.node_addrs.contains_key(other)
            &&& s.node_addrs.contains_key(other) ==> t.node_addrs[other] == s.node_addrs[other]
            &&& t.node_conns == s.node_conns
        }),
{
}

/// An answer that holds addresses teaches exactly those, each without a number unless it
/// was known, and its sender is taken note of, under the protocol it came on unless it was
/// connected before. One that holds none changes nothing.
pub proof fn law_answer_is_learned(
    s: NodesView,
    index: usize,
    protocol: usize,
    msg: MessageView,
    addr: Seq<char>,
    other: usize,
)
    requires
        msg.mtype == MessageType::ReturnNodeAddrs,
        other != index,
    ensures
        returned_addrs(msg.data) is None ==> s.after_message(index, protocol, msg) == s,
        returned_addrs(msg.data) matches Some(addrs) ==> {
            let t = s.after_message(index, protocol, msg);
            &&& t.node_addrs.contains_key(addr) <==> s.node_addrs.contains_key(addr)
                || addrs.contains_key(addr)
            &&& s.node_addrs.contains_key(addr) ==> t.node_addrs[addr] == s.node_addrs[addr]
            &&& !s.node_addrs.contains_key(addr) && addrs.contains_key(addr)
                ==> t.node_addrs[addr] == 0
            &&& t.node_conns.contains_key(index)
            &&& t.node_conns[index] == if s.node_conns.contains_key(index) {
                s.node_conns[index]
            } else {
                protocol
            }
            &&& t.node_conns.contains_key(other) == s.node_conns.contains_key(other)
            &&& s.node_conns.contains_key(other) ==> t.node_conns[other] == s.node_conns[other]
        },
{
}

/// An answer holds addresses exactly if it is a map from addresses to numbers that all fit
/// the machine, and then it holds those.
pub proof fn law_answers_are_maps(text: Seq<char>)
    ensures
        returned_addrs(text) matches Some(addrs) ==> addrs_from_json(text) == Some(addrs),
        returned_addrs(text) is None <==> {
            ||| addrs_from_json(text) is None
            ||| exists|addr: Seq<char>| #[trigger]
                addrs_from_json(text)->0.contains_key(addr) && addrs_from_json(text)->0[addr]
                    > usize::MAX
        },
{
}

/// Who shares an address is answered, alone and first, with all addresses that this node
/// then knows, the shared one among them, each with its number.
pub proof fn law_share_is_answered(
    s: NodesView,
    index: usize,
    msg: MessageView,
    outs: Seq<Outgoing>,
)
    requires
        msg.mtype == MessageType::ShareAddr,
        answers(s, index, msg, outs),
    ensures
        outs.len() >= 1,
        outs[0].indexes@.len() == 1,
        outs[0].indexes@[0] == index,
        outs[0].protocol == 0,
        outs[0].message.mtype == MessageType::ReturnNodeAddrs,
        outs[0].message.timestamp == 0,
        addrs_from_json(outs[0].message.data@) matches Some(told) && {
            &&& told.dom() == s.node_addrs.dom().insert(msg.data)
            &&& forall|addr: Seq<char>| #[trigger]
                s.node_addrs.contains_key(addr) ==> told[addr] == s.node_addrs[addr]
            &&& !s.node_addrs.contains_key(msg.data) ==> told[msg.data] == 0
        },
{
    let told = addrs_from_json(outs[0].message.data@)->0;
    assert(told.dom() =~= s.node_addrs.dom().insert(msg.data));
}

/// An address that is shared or passed on goes to every other node that is connected, in
/// one message that names each once, whether it was known before or not; where there is
/// no other node, nothing is sent. `answer` counts the answer that comes before it, where
/// one is owed. An answer itself is not answered.
pub proof fn law_address_is_passed_on(
    s: NodesView,
    index: usize,
    msg: MessageView,
    outs: Seq<Outgoing>,
    answer: int,
)
    requires
        answers(s, index, msg, outs),
        answer == if msg.mtype == MessageType::ShareAddr { 1int } else { 0int },
    ensures
        msg.mtype == MessageType::ReturnNodeAddrs ==> outs.len() == 0,
        msg.mtype != MessageType::ReturnNodeAddrs ==> {
            let others = exists|i: usize| i != index && #[trigger] s.node_conns.contains_key(i);
            &&& !others ==> outs.len() == answer
            &&& others ==> {
                let out = outs[answer];
                &&& outs.len() == answer + 1
                &&& out.indexes@.no_duplicates()
                &&& forall|i: usize| #[trigger]
                    out.indexes@.contains(i) <==> i != index && s.node_conns.contains_key(i)
                &&& out.protocol == 0
                &&& out.message.mtype == MessageType::PassShareAddr
                &&& out.message.data@ == msg.data
                &&& out.message.timestamp == 0
            }
        },
{
    if msg.mtype != MessageType::ReturnNodeAddrs {
        let rest = if answer == 1 { outs.skip(1) } else { outs };
        let nodes = s.neighbours(index);
        if exists|i: usize| i != index && #[trigger] s.node_conns.contains_key(i) {
            let i = choose|i: usize| i != index && #[trigger] s.node_conns.contains_key(i);
            assert(nodes.contains(i));
            assert(rest[0] == outs[answer]);
            law_passed_on_to_all_others(s, index, msg.data, outs[answer]);
        } else {
            assert(nodes =~= Set::empty());
        }
    }
}

} // verus!
