use core_p2p::address::{same_bytes, Multiaddr, PeerId, PublicKey};
use core_p2p::table::Table;

fn peer(n: u8) -> PeerId {
    PeerId::from_bytes(&vec![0, 4, 1, 2, 3, n]).unwrap()
}

#[test]
fn text_is_parsed() {
    let addr = Multiaddr::from_text("/ip4/127.0.0.1/tcp/1337").unwrap();
    assert_eq!(addr.to_vec(), vec![4, 127, 0, 0, 1, 6, 5, 57]);
}

#[test]
fn bad_text_is_refused() {
    assert!(Multiaddr::from_text("127.0.0.1:1337").is_none());
    assert!(Multiaddr::from_text("/ip4/127.0.0/tcp/1337").is_none());
}

#[test]
fn addresses_compare_by_their_bytes() {
    let a = Multiaddr::from_text("/ip4/127.0.0.1/tcp/1337").unwrap();
    let b = Multiaddr::from_bytes(vec![4, 127, 0, 0, 1, 6, 5, 57]);
    let c = Multiaddr::from_bytes(vec![4, 127, 0, 0, 1, 6, 5, 58]);
    assert!(a.same(&b));
    assert!(!a.same(&c));
    assert!(a.same(&a.clone()));
    assert!(same_bytes(&vec![1, 2], &vec![1, 2]));
    assert!(!same_bytes(&vec![1, 2], &vec![1, 2, 3]));
}

#[test]
fn peer_ids_are_multihashes() {
    assert_eq!(peer(4).to_bytes(), vec![0, 4, 1, 2, 3, 4]);
    assert!(peer(4).same(&peer(4)));
    assert!(!peer(4).same(&peer(5)));
    assert!(PeerId::from_bytes(&vec![]).is_none());
    assert!(PeerId::from_bytes(&vec![0, 4, 1, 2, 3]).is_none());
}

#[test]
fn peer_ids_are_of_two_kinds() {
    // A SHA2-256 hash is a peer id, a SHA2-512 hash is none.
    let mut sha256 = vec![0x12, 32];
    sha256.extend(vec![7u8; 32]);
    assert_eq!(PeerId::from_bytes(&sha256).unwrap().to_bytes(), sha256);
    let mut sha512 = vec![0x13, 64];
    sha512.extend(vec![7u8; 64]);
    assert!(PeerId::from_bytes(&sha512).is_none());
}

#[test]
fn component_names_the_peer() {
    let mut addr = Multiaddr::from_bytes(vec![4, 127, 0, 0, 1, 6, 5, 57]);
    addr.append_p2p(&peer(9));
    assert_eq!(
        addr.to_vec(),
        vec![4, 127, 0, 0, 1, 6, 5, 57, 0xa5, 0x03, 6, 0, 4, 1, 2, 3, 9]
    );
}

#[test]
fn short_keys_are_their_own_hash() {
    let pair = libp2p::identity::Keypair::generate_ed25519();
    let bytes = pair.public().to_protobuf_encoding();
    let key = PublicKey::from_protobuf_encoding(bytes.clone()).unwrap();
    assert_eq!(key.to_protobuf_encoding(), bytes);
    let mut expected = vec![0u8, 36];
    expected.extend(bytes);
    assert_eq!(key.to_peer_id().to_bytes(), expected);
    assert!(key.clone().to_peer_id().same(&key.to_peer_id()));
}

#[test]
fn portable_keys_are_decoded() {
    for (pair, header) in vec![
        (libp2p::identity::Keypair::generate_ed25519(), vec![8u8, 1, 18, 32]),
        (libp2p::identity::Keypair::generate_secp256k1(), vec![8, 2, 18, 33]),
    ] {
        let bytes = pair.public().to_protobuf_encoding();
        assert_eq!(bytes[..4].to_vec(), header);
        let key = PublicKey::from_protobuf_encoding(bytes).unwrap();
        assert_eq!(key.to_peer_id().to_bytes(), pair.public().to_peer_id().to_bytes());
    }
}

#[test]
fn bad_key_is_refused() {
    assert!(PublicKey::from_protobuf_encoding(vec![1, 2, 3]).is_none());
    assert!(PublicKey::from_protobuf_encoding(vec![8, 1, 18, 1, 7]).is_none());
    assert!(PublicKey::from_protobuf_encoding(vec![8, 2, 18, 1, 7]).is_none());
}

#[test]
fn table_keeps_one_number_for_each_key() {
    let mut table: Table<PeerId> = Table::new();
    assert!(table.get(&peer(1)).is_none());
    table.insert(peer(1), 10);
    table.insert(peer(2), 20);
    table.insert(peer(1), 11);
    assert_eq!(table.get(&peer(1)), Some(&11));
    assert_eq!(table.get(&peer(2)), Some(&20));
    table.or_insert(peer(2), 21);
    table.or_insert(peer(3), 30);
    assert_eq!(table.get(&peer(2)), Some(&20));
    assert_eq!(table.get(&peer(3)), Some(&30));
    assert_eq!(table.entries().len(), 3);
    assert_eq!(table.remove(&peer(1)), Some(11));
    assert_eq!(table.remove(&peer(1)), None);
    assert_eq!(table.get(&peer(2)), Some(&20));
    assert_eq!(table.get(&peer(3)), Some(&30));
}

#[test]
fn table_of_strings() {
    let mut table: Table<String> = Table::new();
    table.insert(String::from("a"), 1);
    table.or_insert(String::from("a"), 2);
    assert_eq!(table.get(&String::from("a")), Some(&1));
    assert_eq!(table.get(&String::from("b")), None);
}
