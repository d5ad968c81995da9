use fastlink::common::net::{IpAddr, SocketAddr};
use fastlink::common::time::{Duration, Instant};
use fastlink::omnilink::transport::{ack_bytes, classify, Reaction, ReliableState, TransportError};
use fastlink::omnilink::birthday_punch::{dedup_ports, BirthdayPunch, BirthdayPunchConfig, PredictionStrategy};
use fastlink::omnilink::candidate::{CandidatePair, CandidatePriority, CandidateType, CheckState, IceCandidate};
use fastlink::omnilink::ice::{ConnectivityCheckResult, IceAgent, IceConfig, IceState};
use fastlink::omnilink::nat_detection::{NatDetector, NatProperties, NatType};
use fastlink::omnilink::stun::{MessageType, StunAttribute, StunError, StunMessage};
use fastlink::omnilink::traversal::{
    is_difficult_nat, recommend_strategy, strategy_success_rates, NatTraversalEngine, TraversalConfig,
    TraversalStrategy,
};

fn addr(d: u8, port: u16) -> SocketAddr {
    SocketAddr::v4(192, 168, 1, d, port)
}

#[test]
fn test_port_prediction() {
    let config = BirthdayPunchConfig::default();
    let nat_props = NatProperties::new();
    let punch = BirthdayPunch::new(config, nat_props);
    let prediction = punch.predict_peer_port(12345, Some(40000));
    assert!(!prediction.predicted_ports.is_empty());
}

#[test]
fn test_nat_analysis() {
    let config = BirthdayPunchConfig::default();
    let nat_props = NatProperties::new();
    let mut punch = BirthdayPunch::new(config, nat_props);
    let mappings = vec![(10000, 40000), (10001, 40001), (10002, 40002)];
    punch.analyze_nat_behavior(&mappings);
    assert_eq!(punch.last_predicted_delta(), Some(1));
}

#[test]
fn nat_analysis_needs_two_mappings() {
    let mut punch = BirthdayPunch::new(BirthdayPunchConfig::default(), NatProperties::new());
    punch.analyze_nat_behavior(&[(10000, 40000)]);
    assert_eq!(punch.last_predicted_delta(), None);
    punch.analyze_nat_behavior(&[(1, 100), (2, 110)]);
    assert_eq!(punch.last_predicted_delta(), Some(10));
}

#[test]
fn test_birthday_paradox_probability() {
    let n = 32u32;
    let range = 1000u32;
    let p_no_collision = ((range - n)..range).fold(1.0, |acc, i| acc * i as f64 / range as f64);
    let p_collision = 1.0 - p_no_collision;
    assert!(p_collision > 0.4 && p_collision < 0.6);
}

#[test]
fn sequential_prediction_follows_delta() {
    let mut punch = BirthdayPunch::new(BirthdayPunchConfig::default(), NatProperties::new());
    punch.analyze_nat_behavior(&[(10000, 40000), (10001, 40001)]);
    let shuffled: Vec<u16> = Vec::new();
    let prediction = punch.predict_with_window(5000, Some(40010), &shuffled);
    // Ten sequential guesses from the base; the delta guesses repeat them.
    assert_eq!(prediction.predicted_ports[0], 40010);
    assert_eq!(prediction.predicted_ports.len(), 10);
    assert_eq!(prediction.strategy, PredictionStrategy::Delta);
    let deduped = dedup_ports(&prediction.predicted_ports);
    assert_eq!(deduped.len(), prediction.predicted_ports.len());
}

#[test]
fn window_and_dedup() {
    let w = BirthdayPunch::window(100, 4);
    assert_eq!(w, vec![98, 99, 100, 101]);
    assert_eq!(dedup_ports(&vec![5, 5, 6, 5, 7, 6]), vec![5, 6, 7]);
}

#[test]
fn test_candidate_priority() {
    let priority = CandidatePriority::from_parts(126, 65535, 1);
    assert_eq!(priority.type_preference(), 126);
    assert_eq!(priority.local_preference(), 65535);
    assert_eq!(priority.component(), 1);
}

#[test]
fn candidate_priority_exact_value() {
    // (126 << 24) | (65535 << 8) | 1
    assert_eq!(CandidatePriority::from_parts(126, 65535, 1).0, 2_130_706_177);
}

#[test]
fn test_candidate_creation() {
    let host = IceCandidate::new_host(addr(1, 5000), 1);
    assert!(host.is_host());
    assert_eq!(host.component, 1);
    assert!(host.foundation.starts_with("host"));
}

#[test]
fn test_candidate_ordering() {
    let host = IceCandidate::new_host(addr(1, 5000), 1);
    let srflx = IceCandidate::new_server_reflexive(addr(2, 5000), addr(1, 5000), 1);
    assert!(host.ranks_above(&srflx));
    assert!(!srflx.ranks_above(&host));
    assert_eq!(srflx.candidate_type, CandidateType::ServerReflexive);
    assert_eq!(srflx.related_address, Some(addr(1, 5000)));
}

#[test]
fn test_ice_agent_creation() {
    let config = IceConfig::default();
    let agent = IceAgent::new(config);
    assert_eq!(agent.state(), IceState::New);
    assert!(agent.local_candidates().is_empty());
}

#[test]
fn test_ice_candidate_pair_creation() {
    let local = IceCandidate::new_host(addr(1, 5000), 1);
    let remote = IceCandidate::new_host(addr(2, 5000), 1);
    let pair = CandidatePair::new(local, remote);
    assert_eq!(pair.state, CheckState::Frozen);
}

#[test]
fn ice_agent_checks_pairs_highest_first() {
    let mut agent = IceAgent::new(IceConfig::default());
    agent.begin_gathering();
    agent.add_local_candidate(IceCandidate::new_host(addr(1, 5000), 1));
    agent.finish_gathering();
    agent.add_remote_candidates(vec![
        IceCandidate::new_relay(addr(9, 7000), addr(9, 7000), 1),
        IceCandidate::new_host(addr(2, 5000), 1),
    ]);
    assert_eq!(agent.candidate_pairs().len(), 2);
    agent.begin_checks();
    assert_eq!(agent.state(), IceState::Connecting);
    let first = agent.next_check(Duration::from_millis(0)).unwrap().unwrap();
    assert!(first.remote.is_host());
    let ok = ConnectivityCheckResult { candidate_pair: first.clone(), succeeded: true, rtt: Some(Duration::from_millis(5)) };
    assert!(agent.record_check(first, &ok, Instant::now()));
    assert_eq!(agent.state(), IceState::Connected);
    assert!(agent.selected_pair().is_some());
}

#[test]
fn test_nat_type_display() {
    assert_eq!(NatType::Open.to_string(), "Open (No NAT)");
    assert_eq!(NatType::FullCone.to_string(), "Full Cone NAT");
}

#[test]
fn test_nat_properties_default() {
    let props = NatProperties::default();
    assert_eq!(props.nat_type, NatType::Unknown);
    assert!(props.public_address.is_none());
}

#[test]
fn nat_classification() {
    let local = addr(10, 4000);
    let public = SocketAddr::v4(10, 0, 0, 5, 4000);
    // The same public address from both servers: a cone NAT.
    let cone = NatDetector::classify(local, public, Some(public));
    assert_eq!(cone.nat_type, NatType::FullCone);
    // Different mappings: symmetric.
    let other = SocketAddr::v4(10, 0, 0, 5, 4001);
    let open = NatDetector::classify(local, SocketAddr::v4(8, 8, 4, 4, 1), None);
    assert_eq!(open.nat_type, NatType::Open);
    let sym = NatDetector::classify(local, public, Some(other));
    assert_eq!(sym.nat_type, NatType::Symmetric);
    assert!(NatDetector::requires_turn(&sym, &sym));
    assert!(NatDetector::is_public_ip(IpAddr::v4(8, 8, 8, 8)));
    assert!(!NatDetector::is_public_ip(IpAddr::v4(10, 0, 0, 1)));
}

#[test]
fn test_stun_message_creation() {
    let request = StunMessage::new_binding_request();
    assert_eq!(request.message_type, MessageType::BindingRequest);
    assert_eq!(request.transaction_id.len(), 12);
}

#[test]
fn test_stun_message_encode_decode() {
    let mut request = StunMessage::new_binding_request();
    request.add_software("Test".to_string());
    let encoded = request.encode();
    let decoded = StunMessage::decode(&encoded).unwrap();
    assert_eq!(request.message_type, decoded.message_type);
    assert_eq!(request.transaction_id, decoded.transaction_id);
}

fn binding_response(txid: [u8; 12]) -> Vec<u8> {
    let mut b = vec![0x01, 0x01, 0x00, 0x0c, 0x21, 0x12, 0xa4, 0x42];
    b.extend_from_slice(&txid);
    // XOR-MAPPED-ADDRESS for 192.0.2.1:32853
    b.extend_from_slice(&[0x00, 0x20, 0x00, 0x08, 0x00, 0x01, 0xa1, 0x47, 0xe1, 0x12, 0xa6, 0x43]);
    b
}

#[test]
fn stun_public_address_from_response() {
    let bytes = binding_response([7u8; 12]);
    let a = StunMessage::public_address_from_response(&bytes).unwrap();
    assert_eq!(a, SocketAddr::v4(192, 0, 2, 1, 32853));
}

#[test]
fn stun_response_errors() {
    assert!(matches!(StunMessage::public_address_from_response(&[0u8; 10]), Err(StunError::InvalidPacket)));
    // A bare request encodes to its 20-byte header: a request, not a response.
    let bare = StunMessage::new_binding_request().encode();
    assert_eq!(bare.len(), 20);
    assert_eq!(&bare[4..8], &[0x21, 0x12, 0xa4, 0x42]);
    assert!(matches!(StunMessage::public_address_from_response(&bare), Err(StunError::InvalidResponse)));
    let mut request = StunMessage::new_binding_request();
    request.add_software("Test".to_string());
    let request = request.encode();
    assert!(matches!(StunMessage::public_address_from_response(&request), Err(StunError::InvalidResponse)));
    let mut empty = binding_response([1u8; 12]);
    empty.truncate(20);
    empty[3] = 0;
    assert!(matches!(StunMessage::public_address_from_response(&empty), Err(StunError::NoMappedAddress)));
}

#[test]
fn stun_fingerprint_is_checked_value() {
    let mut m = StunMessage::new_binding_request();
    let expected = crc32fast::hash(&m.encode_without_fingerprint()) ^ 0x5354554E;
    assert_eq!(m.calculate_fingerprint(), expected);
    m.add_fingerprint();
    let encoded = m.encode();
    assert_eq!(encoded.len(), 28);
    assert_eq!(&encoded[24..28], &expected.to_be_bytes());
    let decoded = StunMessage::decode(&encoded).unwrap();
    assert_eq!(&decoded.transaction_id[..], &encoded[8..20]);
}

const RFC5769_TID: [u8; 12] = [0xb7, 0xe7, 0xa7, 0x01, 0xbc, 0x34, 0xd6, 0x86, 0xfa, 0x87, 0xdf, 0xae];

#[test]
fn stun_xor_address_rfc5769_ipv4() {
    let value = [0x00, 0x01, 0xa1, 0x47, 0xe1, 0x12, 0xa6, 0x43];
    let a = StunMessage::decode_xor_address(&value, &RFC5769_TID).unwrap();
    assert_eq!(a, SocketAddr::v4(192, 0, 2, 1, 32853));
}

#[test]
fn stun_xor_address_rfc5769_ipv6() {
    let value = [
        0x00, 0x02, 0xa1, 0x47, 0x01, 0x13, 0xa9, 0xfa, 0xa5, 0xd3, 0xf1, 0x79, 0xbc, 0x25, 0xf4, 0xb5,
        0xbe, 0xd2, 0xb9, 0xd9,
    ];
    let a = StunMessage::decode_xor_address(&value, &RFC5769_TID).unwrap();
    let expected: u128 = 0x2001_0db8_1234_5678_0011_2233_4455_6677;
    assert_eq!(a, SocketAddr::new(IpAddr::V6(expected), 32853));
}

#[test]
fn stun_encode_decode_keeps_attributes() {
    let mut m = StunMessage::new_binding_request();
    m.add_software("FastLink/1.0".to_string());
    m.attributes.push(StunAttribute::XorMappedAddress(SocketAddr::v4(10, 1, 2, 3, 4000)));
    m.attributes.push(StunAttribute::MappedAddress(SocketAddr::new(IpAddr::V6(0x1234), 5)));
    m.add_software("odd".to_string());
    let encoded = m.encode();
    assert_eq!(encoded.len(), 20 + 16 + 12 + 24 + 8);
    assert_eq!(u16::from_be_bytes([encoded[2], encoded[3]]) as usize, encoded.len() - 20);
    let decoded = StunMessage::decode(&encoded).unwrap();
    assert_eq!(decoded.transaction_id, m.transaction_id);
    assert_eq!(decoded.attributes.len(), 4);
    assert!(matches!(&decoded.attributes[0], StunAttribute::Software(s) if s == "FastLink/1.0"));
    assert!(matches!(decoded.attributes[1], StunAttribute::XorMappedAddress(a) if a == SocketAddr::v4(10, 1, 2, 3, 4000)));
    assert!(matches!(decoded.attributes[2], StunAttribute::MappedAddress(a) if a == SocketAddr::new(IpAddr::V6(0x1234), 5)));
    assert!(matches!(&decoded.attributes[3], StunAttribute::Software(s) if s == "odd"));
}

#[test]
fn test_success_rates_defined() {
    let rates = strategy_success_rates();
    assert!(!rates.is_empty());
    let symmetric_birthday = rates
        .iter()
        .any(|(nt, s, _)| *nt == NatType::Symmetric && *s == TraversalStrategy::BirthdayPunch);
    assert!(symmetric_birthday);
}

#[test]
fn test_strategy_selection() {
    let config = TraversalConfig::default();
    let local_nat = NatProperties::new();
    let engine = NatTraversalEngine::new(config, local_nat);
    let mut peer_nat = NatProperties::new();
    peer_nat.nat_type = NatType::Symmetric;
    let strategies = engine.select_strategy(&peer_nat);
    assert!(strategies.contains(&TraversalStrategy::BirthdayPunch));
    assert_eq!(*strategies.last().unwrap(), TraversalStrategy::TurnRelay);
}

#[test]
fn test_is_difficult_nat() {
    assert!(is_difficult_nat(NatType::Symmetric));
    assert!(is_difficult_nat(NatType::PortRestrictedCone));
    assert!(!is_difficult_nat(NatType::FullCone));
    assert!(!is_difficult_nat(NatType::Open));
}

#[test]
fn test_recommend_strategy() {
    assert_eq!(recommend_strategy(NatType::Open, NatType::Symmetric), TraversalStrategy::Direct);
    assert_eq!(recommend_strategy(NatType::Symmetric, NatType::FullCone), TraversalStrategy::BirthdayPunch);
}

#[test]
fn expected_rates_follow_the_documented_table() {
    let engine = NatTraversalEngine::new(TraversalConfig::default(), NatProperties::new());
    assert_eq!(engine.get_expected_success_rate(NatType::Symmetric, TraversalStrategy::BirthdayPunch), 600);
    assert_eq!(engine.get_expected_success_rate(NatType::Symmetric, TraversalStrategy::Direct), 0);
    assert_eq!(engine.get_expected_success_rate(NatType::Open, TraversalStrategy::TurnRelay), 1000);
    assert_eq!(engine.get_expected_success_rate(NatType::Symmetric, TraversalStrategy::TurnRelay), 1000);
}

#[test]
fn strategy_statistics_are_exact() {
    let mut engine = NatTraversalEngine::new(TraversalConfig::default(), NatProperties::new());
    assert_eq!(engine.get_actual_success_rate(NatType::Symmetric, TraversalStrategy::TurnRelay), None);
    engine.update_stats(NatType::Symmetric, TraversalStrategy::TurnRelay, true, 100);
    engine.update_stats(NatType::Symmetric, TraversalStrategy::TurnRelay, false, 100);
    // One success in two attempts: 500 thousandths.
    assert_eq!(engine.get_actual_success_rate(NatType::Symmetric, TraversalStrategy::TurnRelay), Some(500));
}

#[test]
fn reliable_transport_numbers_and_acknowledges() {
    let mut st = ReliableState::new();
    let t0 = Instant::now();
    let dest = SocketAddr::v4(10, 0, 0, 2, 9);
    let p = st.prepare_send(b"hi", dest, t0).unwrap();
    assert_eq!(p, vec![0, 0, 0, 0, b'h', b'i']);
    let p2 = st.prepare_send(b"", dest, t0).unwrap();
    assert_eq!(p2, vec![0, 0, 0, 1]);
    assert!(matches!(st.prepare_send(&vec![0u8; 65533], dest, t0), Err(TransportError::PacketTooLarge)));
    assert_eq!(ack_bytes(7), b"ACK:\x00\x00\x00\x07".to_vec());
    assert_eq!(classify(b"ACK:\x00\x00\x00\x07").0, 0);
    assert_eq!(classify(b"\x00\x00\x00\x05ab").2, b"ab".to_vec());
    assert_eq!(classify(b"\x01").0, 2);
    // Nothing is overdue right away; after a long while both packets are.
    assert!(st.retransmit_due(t0).is_empty());
    let later = t0.plus(Duration::from_secs(10));
    assert_eq!(st.retransmit_due(later).len(), 2);
    // Acknowledging packet 0 after 100 ms settles it.
    let r = st.on_datagram(&ack_bytes(0), t0.plus(Duration::from_millis(100)));
    assert!(matches!(r, Reaction::Nothing));
    let due = st.retransmit_due(later);
    assert_eq!(due.len(), 1);
    assert_eq!(due[0].1, vec![0, 0, 0, 1]);
    match st.on_datagram(b"\x00\x00\x00\x09data", t0) {
        Reaction::Acknowledge { ack, payload } => {
            assert_eq!(ack, ack_bytes(9));
            assert_eq!(payload, Some(b"data".to_vec()));
        },
        Reaction::Nothing => panic!("expected an acknowledgement"),
    }
}
