use fastlink::common::net::SocketAddr;
use fastlink::common::time::{Duration, Timestamp};
use fastlink::fastdht::dht::{xor_distance, Dht, DhtConfig, Peer};

#[test]
fn test_dht_store_retrieve() {
    let config = DhtConfig::default();
    let own_id = [1u8; 32];
    let mut dht = Dht::new(config, own_id);
    let key = [2u8; 32];
    let value = b"test_value".to_vec();
    dht.store(key, value.clone(), Duration::from_secs(60));
    let retrieved = dht.retrieve(&key).unwrap();
    assert_eq!(retrieved.value, value);
}

#[test]
fn test_dht_cleanup_expired() {
    let config = DhtConfig::default();
    let own_id = [1u8; 32];
    let mut dht = Dht::new(config, own_id);
    let key = [3u8; 32];
    let now = Timestamp::now();
    dht.store_at(key, b"value".to_vec(), Duration::from_millis(1), now);
    let later = now.checked_add(Duration::from_millis(10)).unwrap();
    dht.cleanup_expired_at(later);
    assert!(dht.retrieve(&key).is_none());
}

#[test]
fn cleanup_keeps_live_values() {
    let mut dht = Dht::new(DhtConfig::default(), [1u8; 32]);
    let now = Timestamp::new(Duration::from_secs(1000));
    dht.store_at([4u8; 32], vec![1], Duration::from_secs(60), now);
    dht.store_at([5u8; 32], vec![2], Duration::from_secs(1), now);
    dht.cleanup_expired_at(Timestamp::new(Duration::from_secs(1030)));
    assert!(dht.retrieve(&[4u8; 32]).is_some());
    assert!(dht.retrieve(&[5u8; 32]).is_none());
    assert_eq!(dht.store_size(), 1);
}

#[test]
fn store_replaces_earlier_value() {
    let mut dht = Dht::new(DhtConfig::default(), [1u8; 32]);
    dht.store([6u8; 32], vec![1], Duration::from_secs(60));
    dht.store([6u8; 32], vec![2, 3], Duration::from_secs(60));
    assert_eq!(dht.store_size(), 1);
    let v = dht.retrieve(&[6u8; 32]).unwrap();
    assert_eq!(v.value, vec![2, 3]);
    assert_eq!(v.publisher, [1u8; 32]);
}

#[test]
fn test_xor_distance() {
    let a = [0b00000000u8; 32];
    let b = [0b11111111u8; 32];
    let dist = xor_distance(&a, &b);
    assert_eq!(dist, [0b11111111u8; 32]);
}

#[test]
fn test_find_closest() {
    let config = DhtConfig::default();
    let own_id = [0u8; 32];
    let mut dht = Dht::new(config, own_id);
    for i in 1..=10u8 {
        let mut id = [0u8; 32];
        id[0] = i;
        let peer = Peer::new(id, SocketAddr::v4(127, 0, 0, 1, 0));
        dht.add_peer(peer);
    }
    let target = [0u8; 32];
    let closest = dht.find_closest(&target, 3);
    assert_eq!(closest.len(), 3);
    // The closest peers to zero are those with the smallest identifiers.
    assert_eq!(closest[0].id[0], 1);
    assert_eq!(closest[1].id[0], 2);
    assert_eq!(closest[2].id[0], 3);
}

#[test]
fn add_peer_keeps_ten_buckets() {
    let mut config = DhtConfig::default();
    config.bucket_size = 1;
    let mut dht = Dht::new(config, [0u8; 32]);
    for i in 0..12u8 {
        dht.add_peer(Peer::new([i; 32], SocketAddr::v4(10, 0, 0, i, 1)));
    }
    assert_eq!(dht.node_count(), 10);
    // The two oldest peers were dropped.
    assert_eq!(dht.find_closest(&[0u8; 32], 1)[0].id, [2u8; 32]);
}
