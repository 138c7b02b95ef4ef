//! The decisions of a peer-to-peer network node, apart from its sockets.
//!
//! - [`service`] keeps track of the nodes that are connected and says what the swarm is
//!   to do about each of its events;
//! - [`cita_handler`] runs one connection: it upgrades substreams and pings;
//! - [`custom_proto`] names custom protocols and queues their messages;
//! - [`network`] collects the tasks of a service;
//! - [`nodes`] spreads the addresses of nodes over the network;
//! - [`ping_node`] is a node that only connects and pings, with many substreams for each
//!   connection;
//! - [`address`], [`poll`] and [`table`] hold what these are made of.
//!
//! Whatever waits, reads or writes is outside: functions that would poll something hand
//! out what is to be polled, and go on once they are handed the answer.

use vstd::prelude::*;

pub mod address;
pub mod cita_handler;
pub mod custom_proto;
pub mod network;
pub mod nodes;
pub mod ping_node;
pub mod poll;
pub mod service;
pub mod table;

pub use crate::address::{Endpoint, Multiaddr};
pub use crate::cita_handler::{CITAInEvent, CITANodeHandler, CITAOutEvent};

verus! {

} // verus!
