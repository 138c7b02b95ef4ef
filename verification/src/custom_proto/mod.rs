//! Custom protocols: what nodes say to each other beyond pings.

use vstd::prelude::*;

pub mod p2p_proto;

verus! {

/// A message on its way to a node.
pub type Request = Vec<u8>;

/// A message that came from a node, if it carried one.
pub type Response = Option<Vec<u8>>;

/// The bytes of a message that came from a node.
pub open spec fn response_view(response: Response) -> Option<Seq<u8>> {
    match response {
        Some(data) => Some(data@),
        None => None,
    }
}

} // verus!
