use fastlink::common::net::SocketAddr;
use fastlink::testkit::{
    AssertionError, MessageAssertion, MultipathAggregationScenario, P2PNatTraversalScenario, RelayFallbackScenario,
    TestMetrics,
};

#[test]
fn test_message_sequence_order() {
    let msg1 = MessageAssertion::new(1, SocketAddr::v4(127, 0, 0, 1, 8080), SocketAddr::v4(127, 0, 0, 1, 8081), 100);
    let msg2 = MessageAssertion::new(2, SocketAddr::v4(127, 0, 0, 1, 8080), SocketAddr::v4(127, 0, 0, 1, 8081), 100);
    assert!(msg2.assert_sequence_order(&msg1).is_ok());
    assert!(msg1.assert_sequence_order(&msg2).is_err());
}

#[test]
fn timing_assertions() {
    let a = SocketAddr::v4(127, 0, 0, 1, 1);
    let m1 = MessageAssertion::new_at(1, a, a, 10, 100);
    let m2 = MessageAssertion::new_at(2, a, a, 10, 105);
    assert!(m2.assert_timing_within(&m1, 5).is_ok());
    let e = m2.assert_timing_within(&m1, 4).unwrap_err();
    assert_eq!(e, AssertionError::TimingExceeded { actual_delta: 5, max_delta: 4 });
    assert_eq!(e.to_string(), "Timing delta 5ms exceeded maximum 4ms");
    assert!(m1.assert_timing_within(&m2, 0).is_ok());
    let s = m1.assert_sequence_order(&m1).unwrap_err();
    assert_eq!(s.to_string(), "Sequence 1 is not greater than previous 1");
}

#[test]
fn scenario_names() {
    assert_eq!(P2PNatTraversalScenario.name(), "p2p_nat_traversal");
    assert_eq!(P2PNatTraversalScenario.timeout().as_secs(), 30);
    assert_eq!(RelayFallbackScenario.name(), "relay_fallback");
    assert_eq!(RelayFallbackScenario.timeout().as_secs(), 60);
    assert_eq!(MultipathAggregationScenario.description(), "Tests bandwidth aggregation across multiple paths");
    let m: TestMetrics = MultipathAggregationScenario.test_aggregation().unwrap();
    assert_eq!(m.packets_sent, 0);
}
