//! Peer ids, network addresses and public keys.
//!
//! Each is held as the bytes that libp2p reads and writes for it, so that the
//! rest of the library compares and stores plain values.

use vstd::prelude::*;
use libp2p::multiaddr::Protocol;

verus! {

/// Which side opened a connection.
#[derive(Debug, Clone, Copy, PartialEq, Eq, Structural)]
pub enum Endpoint {
    /// This node dialed the other one.
    Dialer,
    /// The other node dialed this one.
    Listener,
}

/// What `libp2p::PeerId::from_bytes` makes of some bytes: the bytes that it writes
/// back for the peer id it read, or `None` where it refuses them.
pub uninterp spec fn peer_id_of_bytes(data: Seq<u8>) -> Option<Seq<u8>>;

/// What `libp2p::core::PublicKey` makes of a key in its protobuf form, on a target that
/// knows the key's kind: the bytes of the key's peer id, or `None` where it cannot decode
/// the key.
pub uninterp spec fn peer_id_of_key(key: Seq<u8>) -> Option<Seq<u8>>;

/// What `libp2p::Multiaddr` makes of an address in its text form: the bytes of the
/// address, or `None` where it cannot parse the text.
pub uninterp spec fn multiaddr_of_text(text: Seq<char>) -> Option<Seq<u8>>;

/// The length of the longest peer id: one byte for the hash's code, one for its
/// length and the sixty-four bytes that a multihash can hold.
pub const MAX_PEER_ID_LEN: usize = 66;

/// Bytes that libp2p reads as a peer id and writes back unchanged.
pub open spec fn is_peer_id(bytes: Seq<u8>) -> bool {
    &&& peer_id_of_bytes(bytes) == Some(bytes)
    &&& bytes.len() <= MAX_PEER_ID_LEN
}

/// The address component that names a peer: the protocol's code (421 as an unsigned
/// varint), the length of the peer id and the peer id.
pub open spec fn p2p_component(peer: Seq<u8>) -> Seq<u8> {
    seq![0xa5u8, 0x03u8, peer.len() as u8] + peer
}

/// The kind of an Ed25519 key in its protobuf form.
pub const ED25519_KIND: u8 = 1;

/// The kind of a Secp256k1 key in its protobuf form.
pub const SECP256K1_KIND: u8 = 2;

/// A key in its protobuf form: the field with its kind, and the field with its data, whose
/// length is one byte.
pub open spec fn encoded_key(kind: u8, data: Seq<u8>) -> Seq<u8> {
    seq![0x08u8, kind, 0x12u8, data.len() as u8] + data
}

/// A key of a kind that libp2p knows on every target, in the form in which libp2p writes
/// it.
pub open spec fn is_portable_key(key: Seq<u8>) -> bool {
    exists|kind: u8, data: Seq<u8>|
        key == #[trigger] encoded_key(kind, data) && data.len() < 128 && (kind == ED25519_KIND
            || kind == SECP256K1_KIND)
}

/// Calls `libp2p::PeerId::from_bytes` and writes the peer id back with `to_bytes`.
///
/// Trusted: both depend on their input alone; what `to_bytes` writes is read back as
/// the same peer id; and no peer id is longer than [`MAX_PEER_ID_LEN`].
#[verifier::external_body]
fn read_peer_id(data: &Vec<u8>) -> (res: Option<Vec<u8>>)
    ensures
        match res {
            Some(bytes) => peer_id_of_bytes(data@) == Some(bytes@) && is_peer_id(bytes@),
            None => peer_id_of_bytes(data@) is None,
        },
{
    match libp2p::PeerId::from_bytes(data) {
        Ok(id) => Some(id.to_bytes()),
        Err(_) => None,
    }
}

/// Calls `libp2p::core::PublicKey::from_protobuf_encoding` and, on the key it decodes,
/// `to_peer_id`; the peer id is written with `to_bytes`.
///
/// Trusted: the peer id of a key that was decoded depends on the key's bytes alone, and
/// so does whether a portable key is decoded. Which other keys are decoded is left
/// unsaid: RSA keys are unknown on some targets, and ECDSA keys can be left out of a
/// build.
#[verifier::external_body]
fn read_public_key(key: &Vec<u8>) -> (res: Option<Vec<u8>>)
    ensures
        match res {
            Some(bytes) => peer_id_of_key(key@) == Some(bytes@) && is_peer_id(bytes@),
            None => is_portable_key(key@) ==> peer_id_of_key(key@) is None,
        },
{
    match libp2p::core::PublicKey::from_protobuf_encoding(key) {
        Ok(key) => Some(key.to_peer_id().to_bytes()),
        Err(_) => None,
    }
}

/// Calls `libp2p::Multiaddr::from_str` and hands out the address's bytes.
///
/// Trusted: the result depends on the text alone.
#[verifier::external_body]
fn parse_multiaddr(text: &str) -> (res: Option<Vec<u8>>)
    ensures
        match res {
            Some(bytes) => multiaddr_of_text(text@) == Some(bytes@),
            None => multiaddr_of_text(text@) is None,
        },
{
    match text.parse::<libp2p::Multiaddr>() {
        Ok(addr) => Some(addr.to_vec()),
        Err(_) => None,
    }
}

/// Makes a `libp2p::Multiaddr` out of one `Protocol::P2p` component.
///
/// Trusted: its bytes are the component's code, the peer id's length and the peer id.
#[verifier::external_body]
fn write_p2p_component(peer: &Vec<u8>) -> (res: Vec<u8>)
    requires
        is_peer_id(peer@),
    ensures
        res@ == p2p_component(peer@),
{
    let id = libp2p::PeerId::from_bytes(peer).unwrap();
    libp2p::Multiaddr::from(Protocol::P2p(id.into())).to_vec()
}

/// Whether two byte strings are the same.
pub fn same_bytes(a: &Vec<u8>, b: &Vec<u8>) -> (res: bool)
    ensures
        res == (a@ == b@),
{
    if a.len() != b.len() {
        return false;
    }
    let mut i: usize = 0;
    while i < a.len()
        invariant
            a@.len() == b@.len(),
            0 <= i <= a@.len(),
            forall|j: int| 0 <= j < i ==> a@[j] == b@[j],
        decreases a@.len() - i,
    {
        if a[i] != b[i] {
            return false;
        }
        i = i + 1;
    }
    assert(a@ =~= b@);
    true
}

/// The identity of a node of the network.
#[derive(Debug, PartialEq, Eq)]
pub struct PeerId {
    bytes: Vec<u8>,
}

impl View for PeerId {
    type V = Seq<u8>;

    closed spec fn view(&self) -> Seq<u8> {
        self.bytes@
    }
}

impl PeerId {
    #[verifier::type_invariant]
    spec fn inv(self) -> bool {
        is_peer_id(self.bytes@)
    }

    /// Reads a peer id; the view is the form in which libp2p writes it.
    pub fn from_bytes(data: &Vec<u8>) -> (res: Option<PeerId>)
        ensures
            match res {
                Some(id) => peer_id_of_bytes(data@) == Some(id@),
                None => peer_id_of_bytes(data@) is None,
            },
    {
        match read_peer_id(data) {
            Some(bytes) => Some(PeerId { bytes }),
            None => None,
        }
    }

    /// The bytes of the peer id.
    pub fn to_bytes(&self) -> (res: Vec<u8>)
        ensures
            res@ == self@,
            is_peer_id(res@),
    {
        proof {
            use_type_invariant(self);
        }
        let res = self.bytes.clone();
        assert(res@ =~= self.bytes@);
        res
    }

    /// Whether both name the same node.
    pub fn same(&self, other: &PeerId) -> (res: bool)
        ensures
            res == (self@ == other@),
    {
        same_bytes(&self.bytes, &other.bytes)
    }
}

impl Clone for PeerId {
    fn clone(&self) -> (res: PeerId)
        ensures
            res@ == self@,
    {
        PeerId { bytes: self.to_bytes() }
    }
}

/// The address of a node, as the bytes of its components.
#[derive(Debug, PartialEq, Eq)]
pub struct Multiaddr {
    bytes: Vec<u8>,
}

impl View for Multiaddr {
    type V = Seq<u8>;

    closed spec fn view(&self) -> Seq<u8> {
        self.bytes@
    }
}

impl Multiaddr {
    /// The address that has these bytes.
    pub fn from_bytes(bytes: Vec<u8>) -> (res: Multiaddr)
        ensures
            res@ == bytes@,
    {
        Multiaddr { bytes }
    }

    /// Parses an address such as `/ip4/127.0.0.1/tcp/1337`.
    pub fn from_text(text: &str) -> (res: Option<Multiaddr>)
        ensures
            match res {
                Some(addr) => multiaddr_of_text(text@) == Some(addr@),
                None => multiaddr_of_text(text@) is None,
            },
    {
        match parse_multiaddr(text) {
            Some(bytes) => Some(Multiaddr { bytes }),
            None => None,
        }
    }

    /// The bytes of the address.
    pub fn to_vec(&self) -> (res: Vec<u8>)
        ensures
            res@ == self@,
    {
        let res = self.bytes.clone();
        assert(res@ =~= self.bytes@);
        res
    }

    /// Whether both are the same address.
    pub fn same(&self, other: &Multiaddr) -> (res: bool)
        ensures
            res == (self@ == other@),
    {
        same_bytes(&self.bytes, &other.bytes)
    }

    /// Appends the component that names `peer`.
    pub fn append_p2p(&mut self, peer: &PeerId)
        ensures
            final(self)@ == old(self)@ + p2p_component(peer@),
    {
        let id = peer.to_bytes();
        let mut component = write_p2p_component(&id);
        self.bytes.append(&mut component);
    }
}

impl Clone for Multiaddr {
    fn clone(&self) -> (res: Multiaddr)
        ensures
            res@ == self@,
    {
        Multiaddr { bytes: self.to_vec() }
    }
}

/// A node's public key, in the protobuf form in which it is exchanged.
#[derive(Debug, PartialEq, Eq)]
pub struct PublicKey {
    bytes: Vec<u8>,
    peer_id: PeerId,
}

impl View for PublicKey {
    type V = Seq<u8>;

    closed spec fn view(&self) -> Seq<u8> {
        self.bytes@
    }
}

impl PublicKey {
    #[verifier::type_invariant]
    spec fn inv(self) -> bool {
        peer_id_of_key(self.bytes@) == Some(self.peer_id@)
    }

    /// Decodes a key. Of keys that are not portable, which kinds can be decoded depends
    /// on the target and the build.
    pub fn from_protobuf_encoding(bytes: Vec<u8>) -> (res: Option<PublicKey>)
        ensures
            match res {
                Some(key) => key@ == bytes@ && peer_id_of_key(bytes@) is Some,
                None => is_portable_key(bytes@) ==> peer_id_of_key(bytes@) is None,
            },
    {
        match read_public_key(&bytes) {
            Some(id) => Some(PublicKey { bytes, peer_id: PeerId { bytes: id } }),
            None => None,
        }
    }

    /// The key as it was decoded.
    pub fn to_protobuf_encoding(&self) -> (res: Vec<u8>)
        ensures
            res@ == self@,
    {
        let res = self.bytes.clone();
        assert(res@ =~= self.bytes@);
        res
    }

    /// The peer id of the node that holds the key.
    pub fn to_peer_id(&self) -> (res: PeerId)
        ensures
            peer_id_of_key(self@) == Some(res@),
            is_peer_id(res@),
    {
        proof {
            use_type_invariant(self);
            use_type_invariant(&self.peer_id);
        }
        self.peer_id.clone()
    }
}

impl Clone for PublicKey {
    fn clone(&self) -> (res: PublicKey)
        ensures
            res@ == self@,
    {
        proof {
            use_type_invariant(self);
        }
        PublicKey { bytes: self.to_protobuf_encoding(), peer_id: self.peer_id.clone() }
    }
}

} // verus!
