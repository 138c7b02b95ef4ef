//! Nodes that tell each other the addresses of all nodes they have heard of.
//!
//! A node that dials another one shares its own address. The other one answers with all
//! addresses it knows, and passes the new address on to everybody else it is connected
//! to; so do those who hear of it from there.

use vstd::prelude::*;
use std::collections::HashMap;
use crate::address::Endpoint;
use crate::service::ServiceEvent;
use crate::table::{as_map, distinct_keys, has_key, position, Table};

pub mod laws;

verus! {

broadcast use vstd::std_specs::hash::group_hash_axioms;

/// What a message says.
#[derive(Debug, Clone, Copy, PartialEq, Eq, Structural)]
pub enum MessageType {
    /// The sender can be reached at this address.
    ShareAddr,
    /// Some node can be reached at this address.
    PassShareAddr,
    /// These are the addresses that the sender knows.
    ReturnNodeAddrs,
}

/// A message between nodes.
#[derive(Debug)]
pub struct Message {
    pub mtype: MessageType,
    pub data: String,
    pub timestamp: u64,
}

/// The contents of a [`Message`].
pub struct MessageView {
    pub mtype: MessageType,
    pub data: Seq<char>,
    pub timestamp: u64,
}

impl View for Message {
    type V = MessageView;

    open spec fn view(&self) -> MessageView {
        MessageView { mtype: self.mtype, data: self.data@, timestamp: self.timestamp }
    }
}

/// A message that is to be sent, and the nodes and the protocol that it is for.
#[derive(Debug)]
pub struct Outgoing {
    pub indexes: Vec<usize>,
    pub protocol: usize,
    pub message: Message,
}

/// The protocol on which nodes speak.
pub const PROTOCOL: usize = 0;

/// What is to be done about an event of the service.
#[derive(Debug)]
pub enum EventStep {
    /// Nothing.
    Done,
    /// Send this message.
    Send(Outgoing),
    /// Decode these bytes into a [`Message`], and hand it to
    /// [`NodeManager::handle_message`].
    Decode { index: usize, protocol: usize, data: Vec<u8> },
}

/// What `serde_json` makes of a text as a map from strings to numbers of 64 bits, or
/// `None` where the text is no such map.
pub uninterp spec fn addrs_from_json(text: Seq<char>) -> Option<Map<Seq<char>, u64>>;

/// Numbers of the machine as numbers of 64 bits.
pub open spec fn widened(addrs: Map<Seq<char>, usize>) -> Map<Seq<char>, u64> {
    addrs.map_values(|v: usize| v as u64)
}

/// Calls `serde_json::to_string` on a `HashMap` of the entries.
///
/// Trusted: what it writes is read back, by `serde_json::from_str`, as the same map.
/// Which text that is is left unsaid: the order of the entries in it changes from one
/// run to the next.
#[verifier::external_body]
fn write_addrs(entries: &Vec<(String, usize)>) -> (res: String)
    requires
        distinct_keys(entries@),
    ensures
        addrs_from_json(res@) == Some(widened(as_map(entries@))),
{
    let addrs: HashMap<&String, &usize> = entries.iter().map(|e| (&e.0, &e.1)).collect();
    serde_json::to_string(&addrs).unwrap()
}

/// Calls `serde_json::from_str` for a `HashMap` from `String` to `u64`, and hands out the
/// entries in the order in which they come.
///
/// Trusted: whether the text is such a map, and which one, depends on the text alone.
#[verifier::external_body]
fn read_addrs(text: &str) -> (res: Option<Vec<(String, u64)>>)
    ensures
        match res {
            Some(entries) => distinct_keys(entries@) && addrs_from_json(text@) == Some(
                as_map(entries@),
            ),
            None => addrs_from_json(text@) is None,
        },
{
    match serde_json::from_str::<HashMap<String, u64>>(text) {
        Ok(addrs) => Some(addrs.into_iter().collect()),
        Err(_) => None,
    }
}

/// The nodes that a node knows of.
#[derive(Debug)]
pub struct NodeManager {
    /// The addresses that were heard of.
    node_addrs: Table<String>,
    /// The nodes that are connected, and the protocol on which they were met.
    node_conns: HashMap<usize, usize>,
}

/// The contents of a [`NodeManager`].
#[verifier::ext_equal]
pub struct NodesView {
    pub node_addrs: Map<Seq<char>, usize>,
    pub node_conns: Map<usize, usize>,
}

impl View for NodeManager {
    type V = NodesView;

    closed spec fn view(&self) -> NodesView {
        NodesView { node_addrs: self.node_addrs@, node_conns: self.node_conns@ }
    }
}

/// A map with a key that keeps its value where it has one.
pub open spec fn or_inserted<K, V>(map: Map<K, V>, key: K, value: V) -> Map<K, V> {
    if map.contains_key(key) {
        map
    } else {
        map.insert(key, value)
    }
}

/// Whether all numbers fit the machine.
pub open spec fn fits(addrs: Map<Seq<char>, u64>) -> bool {
    forall|addr: Seq<char>| #[trigger] addrs.contains_key(addr) ==> addrs[addr] <= usize::MAX
}

/// The addresses in an answer, where it holds any.
pub open spec fn returned_addrs(text: Seq<char>) -> Option<Map<Seq<char>, u64>> {
    match addrs_from_json(text) {
        Some(addrs) => if fits(addrs) {
            Some(addrs)
        } else {
            None
        },
        None => None,
    }
}

impl NodesView {
    /// What is known after an address was heard of.
    pub open spec fn heard(self, addr: Seq<char>) -> NodesView {
        NodesView { node_addrs: or_inserted(self.node_addrs, addr, 0), ..self }
    }

    /// What is known after some addresses were heard of.
    pub open spec fn heard_all(self, addrs: Set<Seq<char>>) -> NodesView {
        NodesView {
            node_addrs: Map::new(
                |addr: Seq<char>| self.node_addrs.contains_key(addr) || addrs.contains(addr),
                |addr: Seq<char>|
                    if self.node_addrs.contains_key(addr) {
                        self.node_addrs[addr]
                    } else {
                        0
                    },
            ),
            ..self
        }
    }

    /// What is known after a node was met on a protocol.
    pub open spec fn met(self, index: usize, protocol: usize) -> NodesView {
        NodesView { node_conns: or_inserted(self.node_conns, index, protocol), ..self }
    }

    /// The nodes that are connected, but for one.
    pub open spec fn neighbours(self, index: usize) -> Set<usize> {
        self.node_conns.dom().remove(index)
    }

    /// What is known after an event of the service.
    pub open spec fn after_event(self, event: ServiceEvent) -> NodesView {
        match event {
            ServiceEvent::CustomProtocolOpen { index, protocol, node_info, .. } =>
                if node_info.endpoint == Endpoint::Listener {
                self.met(index, protocol)
            } else {
                self
            },
            _ => self,
        }
    }

    /// What is known after a message.
    pub open spec fn after_message(self, index: usize, protocol: usize, msg: MessageView) -> NodesView {
        match msg.mtype {
            MessageType::ShareAddr => self.heard(msg.data),
            MessageType::PassShareAddr => self.heard(msg.data),
            MessageType::ReturnNodeAddrs => match returned_addrs(msg.data) {
                Some(addrs) => self.heard_all(addrs.dom()).met(index, protocol),
                None => self,
            },
        }
    }
}

/// Whether a message is the one that shares an address with a node.
pub open spec fn shares(out: Outgoing, index: usize, addr: Seq<char>) -> bool {
    &&& out.indexes@ == seq![index]
    &&& out.protocol == PROTOCOL
    &&& out.message@ == (MessageView { mtype: MessageType::ShareAddr, data: addr, timestamp: 0 })
}

/// Whether a message tells a node all addresses in a map.
pub open spec fn lists(out: Outgoing, index: usize, addrs: Map<Seq<char>, usize>) -> bool {
    &&& out.indexes@ == seq![index]
    &&& out.protocol == PROTOCOL
    &&& out.message.mtype == MessageType::ReturnNodeAddrs
    &&& addrs_from_json(out.message.data@) == Some(widened(addrs))
    &&& out.message.timestamp == 0
}

/// Whether a message passes an address on to some nodes, each named once.
pub open spec fn passes_on(out: Outgoing, nodes: Set<usize>, addr: Seq<char>) -> bool {
    &&& out.indexes@.no_duplicates()
    &&& out.indexes@.to_set() == nodes
    &&& out.protocol == PROTOCOL
    &&& out.message@ == (MessageView {
        mtype: MessageType::PassShareAddr,
        data: addr,
        timestamp: 0,
    })
}

/// Whether messages pass an address on to some nodes: one message does, or none where
/// there is no node.
pub open spec fn all_pass_on(outs: Seq<Outgoing>, nodes: Set<usize>, addr: Seq<char>) -> bool {
    if nodes =~= Set::empty() {
        outs.len() == 0
    } else {
        outs.len() == 1 && passes_on(outs[0], nodes, addr)
    }
}

/// Whether a list of messages is what a node says on a message that it got. `s` is what
/// it knew before.
pub open spec fn answers(s: NodesView, index: usize, msg: MessageView, outs: Seq<Outgoing>) -> bool {
    match msg.mtype {
        MessageType::ShareAddr => {
            &&& outs.len() >= 1
            &&& lists(outs[0], index, s.heard(msg.data).node_addrs)
            &&& all_pass_on(outs.skip(1), s.neighbours(index), msg.data)
        },
        MessageType::PassShareAddr => all_pass_on(outs, s.neighbours(index), msg.data),
        MessageType::ReturnNodeAddrs => outs.len() == 0,
    }
}

/// Whether a step is what is to be done about an event of the service.
pub open spec fn is_step(event: ServiceEvent, localaddr: Seq<char>, step: EventStep) -> bool {
    match event {
        ServiceEvent::CustomProtocolOpen { index, node_info, .. } =>
            if node_info.endpoint == Endpoint::Dialer {
            step matches EventStep::Send(out) && shares(out, index, localaddr)
        } else {
            step is Done
        },
        ServiceEvent::CustomMessage { index, protocol, data: Some(value) } => step == (
        EventStep::Decode { index, protocol, data: value }),
        _ => step is Done,
    }
}

/// A message to one node.
fn to_one(index: usize, message: Message) -> (res: Outgoing)
    ensures
        res.indexes@ == seq![index],
        res.protocol == PROTOCOL,
        res.message == message,
{
    let mut indexes: Vec<usize> = Vec::new();
    indexes.push(index);
    assert(indexes@ =~= seq![index]);
    Outgoing { indexes, protocol: PROTOCOL, message }
}

impl NodeManager {
    /// No address is listed twice.
    pub closed spec fn wf(&self) -> bool {
        self.node_addrs.wf()
    }

    /// A node that knows its own address, and nobody yet.
    pub fn new(localaddr: &String) -> (res: NodeManager)
        ensures
            res.wf(),
            res@ == (NodesView {
                node_addrs: map![localaddr@ => 1usize],
                node_conns: Map::empty(),
            }),
    {
        let mut node_addrs = Table::new();
        node_addrs.insert(localaddr.clone(), 1);
        let res = NodeManager { node_addrs, node_conns: HashMap::new() };
        assert(res@ =~= (NodesView {
            node_addrs: map![localaddr@ => 1usize],
            node_conns: Map::empty(),
        }));
        res
    }

    /// The number that belongs to an address, if it was heard of: 1 for the node's own
    /// address, 0 for others.
    pub fn get_addr(&self, addr: &String) -> (res: Option<usize>)
        requires
            self.wf(),
        ensures
            match res {
                Some(v) => self@.node_addrs.contains_key(addr@) && v == self@.node_addrs[addr@],
                None => !self@.node_addrs.contains_key(addr@),
            },
    {
        match self.node_addrs.get(addr) {
            Some(v) => Some(*v),
            None => None,
        }
    }

    /// The protocol on which a node was met, if it is connected.
    pub fn get_conn(&self, index: usize) -> (res: Option<usize>)
        ensures
            match res {
                Some(v) => self@.node_conns.contains_key(index) && v == self@.node_conns[index],
                None => !self@.node_conns.contains_key(index),
            },
    {
        match self.node_conns.get(&index) {
            Some(v) => Some(*v),
            None => None,
        }
    }

    fn meet(&mut self, index: usize, protocol: usize)
        requires
            old(self).wf(),
        ensures
            final(self).wf(),
            final(self)@ == old(self)@.met(index, protocol),
    {
        if !self.node_conns.contains_key(&index) {
            self.node_conns.insert(index, protocol);
        }
    }

    fn hear(&mut self, addr: &String)
        requires
            old(self).wf(),
        ensures
            final(self).wf(),
            final(self)@ == old(self)@.heard(addr@),
    {
        self.node_addrs.or_insert(addr.clone(), 0);
    }

    // The nodes that are connected, but for one, in no order that callers can rely on.
    fn other_neighbours(&self, index: usize) -> (res: Vec<usize>)
        ensures
            res@.no_duplicates(),
            res@.to_set() == self@.neighbours(index),
    {
        let mut res: Vec<usize> = Vec::new();
        let ghost mut seen: Seq<usize> = seq![];
        for key in it: self.node_conns.keys()
            invariant
                it.seq().unref().to_set() == self.node_conns@.dom(),
                it.seq().no_duplicates(),
                seen == it.seq().unref().take(it.index() as int),
                it.index() <= it.seq().len(),
                it.index() == it.seq().len() ==> seen =~= it.seq().unref(),
                res@.no_duplicates(),
                forall|k: usize| #[trigger] res@.contains(k) <==> k != index && seen.contains(k),
        {
            let ghost before = res@;
            let ghost passed = seen;
            proof {
                let keys = it.seq().unref();
                let n = it.index() as int;
                assert(keys[n] == *key);
                assert(keys.take(n + 1) =~= passed.push(*key));
                if passed.contains(*key) {
                    let i = choose|i: int| 0 <= i < passed.len() && passed[i] == *key;
                    assert(it.seq()[i] == it.seq()[n]);
                }
                seen = passed.push(*key);
                assert(seen[n] == *key);
                assert forall|k: usize| #[trigger]
                    seen.contains(k) <==> passed.contains(k) || k == *key by {
                    if passed.contains(k) {
                        let i = choose|i: int| 0 <= i < passed.len() && passed[i] == k;
                        assert(seen[i] == k);
                    }
                }
            }
            if *key != index {
                res.push(*key);
                proof {
                    assert(!before.contains(*key));
                    assert(res@[before.len() as int] == *key);
                    assert forall|k: usize| #[trigger]
                        res@.contains(k) <==> before.contains(k) || k == *key by {
                        if before.contains(k) {
                            let i = choose|i: int| 0 <= i < before.len() && before[i] == k;
                            assert(res@[i] == k);
                        }
                    }
                }
            }
        }
        proof {
            assert(seen.to_set() == self.node_conns@.dom());
            assert forall|k: usize| res@.to_set().contains(k) == self@.neighbours(index).contains(
                k,
            ) by {
                assert(seen.to_set().contains(k) == seen.contains(k));
                assert(res@.to_set().contains(k) == res@.contains(k));
            }
            assert(res@.to_set() =~= self@.neighbours(index));
        }
        res
    }

    // Tells all nodes but one of an address.
    fn pass_on(&self, index: usize, addr: String) -> (res: Option<Outgoing>)
        ensures
            match res {
                Some(out) => self@.neighbours(index) != Set::<usize>::empty() && passes_on(
                    out,
                    self@.neighbours(index),
                    addr@,
                ),
                None => self@.neighbours(index) == Set::<usize>::empty(),
            },
    {
        let indexes = self.other_neighbours(index);
        if indexes.len() > 0 {
            assert(indexes@.to_set().contains(indexes@[0]));
            Some(
                Outgoing {
                    indexes,
                    protocol: PROTOCOL,
                    message: Message {
                        mtype: MessageType::PassShareAddr,
                        data: addr,
                        timestamp: 0,
                    },
                },
            )
        } else {
            assert(indexes@.to_set() =~= Set::empty());
            None
        }
    }

    /// Takes an event of the service. Where this node dialed, it shares its own address;
    /// where it was dialed, it takes note of the other node.
    pub fn handle_event(&mut self, localaddr: &String, event: ServiceEvent) -> (res: EventStep)
        requires
            old(self).wf(),
        ensures
            final(self).wf(),
            final(self)@ == old(self)@.after_event(event),
            is_step(event, localaddr@, res),
            match event {
                ServiceEvent::CustomProtocolOpen { index, node_info, .. } =>
                    if node_info.endpoint == Endpoint::Dialer {
                    res matches EventStep::Send(out) && shares(out, index, localaddr@)
                } else {
                    res is Done
                },
                ServiceEvent::CustomMessage { index, protocol, data: Some(value) } => res
                    == (EventStep::Decode { index, protocol, data: value }),
                _ => res is Done,
            },
    {
        match event {
            ServiceEvent::CustomProtocolOpen { index, protocol, version: _, node_info } => {
                match node_info.endpoint {
                    Endpoint::Dialer => EventStep::Send(
                        to_one(
                            index,
                            Message {
                                mtype: MessageType::ShareAddr,
                                data: localaddr.clone(),
                                timestamp: 0,
                            },
                        ),
                    ),
                    Endpoint::Listener => {
                        // here, connection opened, record it
                        self.meet(index, protocol);
                        EventStep::Done
                    },
                }
            },
            ServiceEvent::CustomMessage { index, protocol, data: Some(value) } =>
                EventStep::Decode { index, protocol, data: value },
            _ => EventStep::Done,
        }
    }

    /// Takes the addresses that another node knows, and takes note of the node.
    pub fn learn(&mut self, index: usize, protocol: usize, addrs: Vec<(String, u64)>)
        requires
            old(self).wf(),
        ensures
            final(self).wf(),
            final(self)@ == old(self)@.heard_all(as_map(addrs@).dom()).met(index, protocol),
    {
        let ghost s = self@;
        let mut i: usize = 0;
        assert(self@ =~= s.heard_all(as_map(addrs@.take(0)).dom()));
        while i < addrs.len()
            invariant
                0 <= i <= addrs@.len(),
                self.wf(),
                self@ == s.heard_all(as_map(addrs@.take(i as int)).dom()),
            decreases addrs@.len() - i,
        {
            let ghost before = as_map(addrs@.take(i as int)).dom();
            let ghost after = as_map(addrs@.take(i + 1)).dom();
            let ghost now = self@;
            proof {
                let old_part = addrs@.take(i as int);
                let new_part = addrs@.take(i + 1);
                let addr = addrs@[i as int].0@;
                assert forall|key: Seq<char>|
                    #![auto]
                    has_key(new_part, key) == (has_key(old_part, key) || key == addr) by {
                    if has_key(old_part, key) {
                        let p = position(old_part, key);
                        assert(new_part[p].0@ == key);
                    }
                    if key == addr {
                        assert(new_part[i as int].0@ == key);
                    }
                    if has_key(new_part, key) {
                        let p = position(new_part, key);
                        if p < i {
                            assert(old_part[p].0@ == key);
                        }
                    }
                }
                assert(after =~= before.insert(addr));
            }
            self.hear(&addrs[i].0);
            assert(self@ =~= s.heard_all(after));
            i = i + 1;
        }
        assert(addrs@.take(i as int) =~= addrs@);
        self.meet(index, protocol);
    }

    /// Takes a message that came from a node, and hands out what is to be sent, in this
    /// order. `None` where the message should hold addresses, and does not: then nothing
    /// changes.
    pub fn handle_message(&mut self, index: usize, protocol: usize, msg: Message) -> (res: Option<
        Vec<Outgoing>,
    >)
        requires
            old(self).wf(),
        ensures
            final(self).wf(),
            final(self)@ == old(self)@.after_message(index, protocol, msg@),
            res is None <==> msg.mtype == MessageType::ReturnNodeAddrs && returned_addrs(
                msg.data@,
            ) is None,
            res matches Some(outs) ==> answers(old(self)@, index, msg@, outs@),
    {
        let mut outs: Vec<Outgoing> = Vec::new();
        match msg.mtype {
            MessageType::ShareAddr => {
                let addr = msg.data;
                self.hear(&addr);
                let known = self.node_addrs.entries();
                let reply = Message {
                    mtype: MessageType::ReturnNodeAddrs,
                    data: write_addrs(known),
                    timestamp: 0,
                };
                outs.push(to_one(index, reply));
                let ghost first = outs@;
                // forward the address to all neighbours, except the one it came from
                match self.pass_on(index, addr) {
                    Some(out) => {
                        outs.push(out);
                        assert(outs@.skip(1) =~= seq![out]);
                    },
                    None => {
                        assert(outs@.skip(1) =~= seq![]);
                    },
                }
                assert(outs@[0] == first[0]);
                Some(outs)
            },
            MessageType::PassShareAddr => {
                let addr = msg.data;
                self.hear(&addr);
                match self.pass_on(index, addr) {
                    Some(out) => outs.push(out),
                    None => {},
                }
                Some(outs)
            },
            MessageType::ReturnNodeAddrs => {
                match read_addrs(msg.data.as_str()) {
                    Some(addrs) => {
                        if !all_fit(&addrs) {
                            return None;
                        }
                        self.learn(index, protocol, addrs);
                        Some(outs)
                    },
                    None => None,
                }
            },
        }
    }
}

/// Whether all numbers fit the machine.
fn all_fit(addrs: &Vec<(String, u64)>) -> (res: bool)
    requires
        distinct_keys(addrs@),
    ensures
        res == fits(as_map(addrs@)),
{
    let mut i: usize = 0;
    while i < addrs.len()
        invariant
            0 <= i <= addrs@.len(),
            distinct_keys(addrs@),
            forall|j: int| 0 <= j < i ==> (#[trigger] addrs@[j]).1 <= usize::MAX,
        decreases addrs@.len() - i,
    {
        if addrs[i].1 > usize::MAX as u64 {
            proof {
                crate::table::lemma_entry(addrs@, i as int);
                assert(as_map(addrs@).contains_key(addrs@[i as int].0@));
            }
            return false;
        }
        i = i + 1;
    }
    assert forall|addr: Seq<char>| #[trigger]
        as_map(addrs@).contains_key(addr) implies as_map(addrs@)[addr] <= usize::MAX by {
        let p = position(addrs@, addr);
        assert(addrs@[p].0@ == addr);
    }
    true
}

} // verus!
