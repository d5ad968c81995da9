use fastlink::common::net::SocketAddr;
use fastlink::crypto::signature::KeyPair;
use fastlink::p2p::connection::{
    split_frames, ConnectionError, ConnectionInfo, ConnectionManager, ConnectionProtocol, ConnectionState, MessageFrame,
    MessageType,
};
use fastlink::p2p::dht::{Dht, DhtError, DhtKey, PeerInfo, MAX_VALUE_SIZE};
use fastlink::p2p::discovery::{DiscoveryConfig, MulticastBeacon, PeerDiscovery};
use fastlink::p2p::node::{NodeId, NodeState, P2PNodeConfig};
use fastlink::p2p::routing::{MessageRouter, P2PMessage, P2PMessageType, RouteDecision, RoutingEntry};

#[test]
fn test_message_frame_encoding() {
    let frame = MessageFrame::new(MessageType::Data, vec![1, 2, 3, 4]);
    let encoded = frame.encode().unwrap();
    assert!(!encoded.is_empty());
    let decoded = MessageFrame::decode(&encoded).unwrap();
    assert_eq!(decoded.message_type, MessageType::Data);
    assert_eq!(decoded.payload, vec![1, 2, 3, 4]);
}

#[test]
fn message_frame_bytes_and_errors() {
    let frame = MessageFrame::new(MessageType::Data, vec![0xAA]);
    let encoded = frame.encode().unwrap();
    assert_eq!(&encoded[..4], &[0x46, 0x4C, 0x50, 0x43]);
    assert_eq!(encoded[4], 1);
    assert_eq!(&encoded[6..10], &[0, 0, 0, 1]);
    assert_eq!(encoded.len(), 11);
    let mut bad = encoded.clone();
    bad[0] = 0;
    assert!(matches!(MessageFrame::decode(&bad), Err(ConnectionError::InvalidFrame)));
    assert!(matches!(MessageFrame::decode(&encoded[..5]), Err(ConnectionError::InvalidFrame)));
    let mut big = encoded.clone();
    big[6] = 0x7F;
    assert!(matches!(MessageFrame::decode(&big), Err(ConnectionError::MessageTooLarge)));
}

#[test]
fn split_frames_keeps_partial_tail() {
    let a = MessageFrame::new(MessageType::Ping, vec![]).encode().unwrap();
    let b = MessageFrame::new(MessageType::Data, vec![5, 6, 7]).encode().unwrap();
    let mut buf = a.clone();
    buf.extend_from_slice(&b);
    buf.extend_from_slice(&b[..4]);
    let frames = split_frames(&mut buf);
    assert_eq!(frames.len(), 2);
    assert_eq!(frames[1].as_ref().unwrap().payload, vec![5, 6, 7]);
    assert_eq!(buf, b[..4].to_vec());
}

#[test]
fn split_frames_reads_pieces_like_the_whole() {
    let a = MessageFrame::new(MessageType::Data, vec![1; 300]).encode().unwrap();
    let b = MessageFrame::new(MessageType::Data, vec![2, 3]).encode().unwrap();
    let mut whole = a.clone();
    whole.extend_from_slice(&b);
    let mut buf = whole[..17].to_vec();
    let first = split_frames(&mut buf);
    assert!(first.is_empty());
    buf.extend_from_slice(&whole[17..]);
    let second = split_frames(&mut buf);
    assert_eq!(second.len(), 2);
    assert_eq!(second[0].as_ref().unwrap().payload, vec![1; 300]);
    assert_eq!(second[1].as_ref().unwrap().payload, vec![2, 3]);
    assert!(buf.is_empty());
}

#[test]
fn split_frames_takes_payloads_over_64_kib() {
    let big = MessageFrame::new(MessageType::Data, vec![9u8; 70_000]).encode().unwrap();
    let mut buf = big[..65_546].to_vec();
    assert!(split_frames(&mut buf).is_empty());
    buf.extend_from_slice(&big[65_546..]);
    let frames = split_frames(&mut buf);
    assert_eq!(frames.len(), 1);
    assert_eq!(frames[0].as_ref().unwrap().payload.len(), 70_000);
    assert!(buf.is_empty());
}

#[test]
fn test_connection_info_creation() {
    let node_id = NodeId::new();
    let local_addr = SocketAddr::v4(127, 0, 0, 1, 8080);
    let remote_addr = SocketAddr::v4(127, 0, 0, 1, 9090);
    let info = ConnectionInfo::new(node_id, local_addr, remote_addr, ConnectionProtocol::Tcp);
    assert_eq!(info.protocol, ConnectionProtocol::Tcp);
    assert_eq!(info.state, ConnectionState::Connecting);
    assert_eq!(info.bytes_sent, 0);
}

#[test]
fn test_dht_key_from_data() {
    let data = b"hello world";
    let key1 = DhtKey::from_data(data);
    let key2 = DhtKey::from_data(data);
    assert_eq!(key1, key2);
    // SHA-1 of "hello world" starts 2aae6c35.
    assert_eq!(&key1.0[..4], &[0x2a, 0xae, 0x6c, 0x35]);
}

#[test]
fn dht_key_distance() {
    let a = DhtKey([0u8; 20]);
    let mut b = DhtKey([0u8; 20]);
    b.0[19] = 1;
    assert_eq!(a.distance(&b)[19], 1);
    assert_eq!(a.bucket_distance(&b), 159);
    assert_eq!(a.bucket_distance(&a), 159);
    b.0[0] = 0x80;
    assert_eq!(a.bucket_distance(&b), 0);
}

#[test]
fn test_dht_basic_operations() {
    let node_id = NodeId::new();
    let mut dht = Dht::new(node_id);
    let peer = PeerInfo { node_id: NodeId::new(), address: SocketAddr::v4(192, 168, 1, 1, 8080), last_seen: 0 };
    dht.add_peer(peer);
    let key = DhtKey::from_data(b"test key");
    dht.store(key, b"test value".to_vec(), node_id, 3600).unwrap();
    let retrieved = dht.retrieve(&key);
    assert!(retrieved.is_some());
    assert_eq!(retrieved.unwrap().data, b"test value".to_vec());
}

#[test]
fn dht_refuses_large_values_and_expires() {
    let node_id = NodeId([1u8; 32]);
    let mut dht = Dht::new(node_id);
    let key = DhtKey([3u8; 20]);
    assert!(matches!(dht.store(key, vec![0u8; MAX_VALUE_SIZE + 1], node_id, 10), Err(DhtError::ValueTooLarge(n)) if n == MAX_VALUE_SIZE + 1));
    dht.store_at(key, vec![1], node_id, 10, 100).unwrap();
    assert!(dht.retrieve_at(&key, 109).is_some());
    assert!(dht.retrieve_at(&key, 111).is_none());
}

#[test]
fn dht_closest_peers_in_distance_order() {
    let own = NodeId([0u8; 32]);
    let mut dht = Dht::new(own);
    for i in 1..=5u8 {
        let mut id = [0u8; 32];
        id[0] = i;
        dht.add_peer_at(PeerInfo { node_id: NodeId(id), address: SocketAddr::v4(10, 0, 0, i, 1), last_seen: 0 }, 50);
    }
    assert!(dht.is_known_peer(&NodeId({ let mut id = [0u8; 32]; id[0] = 3; id })));
    let mut target = [0u8; 20];
    target[0] = 4;
    let closest = dht.find_closest_peers(&DhtKey(target), 2);
    assert_eq!(closest.len(), 2);
    assert!(closest.iter().all(|p| p.node_id.0[0] >= 1 && p.node_id.0[0] <= 5));
    assert_eq!(dht.find_closest_peers(&DhtKey(target), 10).len(), 5);
}

#[test]
fn test_node_id_generation() {
    let id1 = NodeId::new();
    let id2 = NodeId::new();
    assert_ne!(id1, id2);
}

#[test]
fn node_id_display_and_from_keypair() {
    let id = NodeId([0xab; 32]);
    assert_eq!(id.to_string(), "abababababababab");
    let kp = KeyPair::generate().unwrap();
    assert_eq!(&NodeId::from_keypair(&kp).0[..], kp.public_key());
}

#[test]
fn p2p_node_config_default() {
    let config = P2PNodeConfig::default();
    assert!(config.max_connections > 0);
    assert_eq!(NodeState::Idle, NodeState::Idle);
}

#[test]
fn test_message_creation() {
    let node_id = NodeId::new();
    let message = P2PMessage::new(node_id, None, P2PMessageType::Ping);
    assert_eq!(message.from, node_id);
}

#[test]
fn test_message_router_creation() {
    let router = MessageRouter::new(1000);
    assert!(!router.has_seen(1));
}

fn msg(id: u64, to: Option<NodeId>) -> P2PMessage {
    P2PMessage::with_id(id, NodeId([9u8; 32]), to, P2PMessageType::Ping, 0)
}

#[test]
fn router_decisions_and_cache() {
    let mut router = MessageRouter::new(1000);
    let dht = Dht::new(NodeId([0u8; 32]));
    let target = NodeId([5u8; 32]);
    assert!(matches!(router.route(msg(1, Some(target)), true, &dht), Ok(RouteDecision::Direct(t)) if t == target));
    assert!(matches!(router.route(msg(2, Some(target)), false, &dht), Ok(RouteDecision::Relay(p)) if p.is_empty()));
    assert!(matches!(router.route(msg(3, None), false, &dht), Ok(RouteDecision::Broadcast)));
    assert!(router.has_seen(1) && router.has_seen(2) && router.has_seen(3));
    assert!(!router.has_seen(4));
}

#[test]
fn router_cache_evicts_oldest_ten() {
    let mut router = MessageRouter::new(12);
    let dht = Dht::new(NodeId([0u8; 32]));
    for id in 0..12u64 {
        router.route(msg(id, None), false, &dht).unwrap();
    }
    assert!(router.has_seen(0));
    router.route(msg(100, None), false, &dht).unwrap();
    for id in 0..10u64 {
        assert!(!router.has_seen(id));
    }
    assert!(router.has_seen(10) && router.has_seen(11) && router.has_seen(100));
}

#[test]
fn router_peer_table() {
    let mut router = MessageRouter::new(10);
    let a = NodeId([1u8; 32]);
    let entry = RoutingEntry { node_id: a, address: SocketAddr::v4(10, 0, 0, 1, 1), last_seen: 5, reliability: 900, latency_ms: Some(20) };
    router.update_peer(entry);
    router.update_peer(RoutingEntry { last_seen: 6, ..entry });
    assert_eq!(router.get_peer(&a).unwrap().last_seen, 6);
    assert!(router.get_peer(&NodeId([2u8; 32])).is_none());
}

#[test]
fn test_discovery_config_default() {
    let config = DiscoveryConfig::default();
    assert!(config.enable_multicast);
    assert_eq!(config.multicast_addresses[0], SocketAddr::v4(224, 0, 0, 251, 5353));
    assert_eq!(config.max_peers_to_find, 50);
}

#[test]
fn test_peer_discovery_creation() {
    let config = DiscoveryConfig::default();
    let discovery = PeerDiscovery::new(config);
    assert!(discovery.get_discovered_peers().is_empty());
}

#[test]
fn test_add_peer() {
    let config = DiscoveryConfig::default();
    let mut discovery = PeerDiscovery::new(config);
    let node_id = NodeId::new();
    let addr = SocketAddr::v4(127, 0, 0, 1, 8080);
    discovery.add_peer(node_id, addr);
    assert!(discovery.has_discovered(&node_id));
}

#[test]
fn discovery_records_once_and_searches_dht() {
    let mut discovery = PeerDiscovery::new(DiscoveryConfig::default());
    assert!(discovery.config().enable_multicast);
    assert_eq!(discovery.config().multicast_addresses.len(), 2);
    let id = NodeId([3u8; 32]);
    discovery.add_peer_at(id, SocketAddr::v4(1, 1, 1, 1, 1), 10);
    discovery.add_peer_at(id, SocketAddr::v4(1, 1, 1, 1, 1), 10);
    assert_eq!(discovery.get_discovered_peers().len(), 1);
    discovery.add_peer_at(id, SocketAddr::v4(1, 1, 1, 1, 1), 11);
    assert_eq!(discovery.get_discovered_peers().len(), 2);
    assert!(discovery.find_peers_dht(&DhtKey([0u8; 20]), 5).unwrap().is_empty());
    let mut dht = Dht::new(NodeId([0u8; 32]));
    dht.add_peer_at(PeerInfo { node_id: id, address: SocketAddr::v4(1, 1, 1, 1, 1), last_seen: 0 }, 1);
    discovery.set_dht(dht);
    assert_eq!(discovery.find_peers_dht(&DhtKey([3u8; 20]), 5).unwrap().len(), 1);
}

#[test]
fn multicast_beacon_switch() {
    let mut beacon = MulticastBeacon::new(NodeId([1u8; 32]), 5353);
    assert!(!beacon.running);
    beacon.start().unwrap();
    assert!(beacon.running);
    beacon.stop();
    assert!(!beacon.running);
}

#[test]
fn test_connection_manager_creation() {
    let manager: ConnectionManager<u32> = ConnectionManager::new(100, 1000);
    assert_eq!(manager.count(), 0);
}

#[test]
fn connection_manager_limit_and_replacement() {
    let mut manager: ConnectionManager<u32> = ConnectionManager::new(2, 10);
    let a = NodeId([1u8; 32]);
    let b = NodeId([2u8; 32]);
    manager.add(a, 1).unwrap();
    manager.add(b, 2).unwrap();
    assert!(matches!(manager.add(NodeId([3u8; 32]), 3), Err(ConnectionError::MaxConnectionsReached)));
    assert_eq!(manager.remove(&a), Some(1));
    assert_eq!(manager.remove(&a), None);
    manager.add(b, 5).unwrap();
    assert_eq!(manager.count(), 1);
    assert_eq!(manager.get(&b), Some(&5));
    assert!(manager.has_connection(&b));
    assert_eq!(manager.node_ids(), vec![b]);
    assert_eq!(manager.drain().len(), 1);
    assert_eq!(manager.count(), 0);
}
