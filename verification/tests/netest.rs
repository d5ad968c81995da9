use fastlink::common::net::SocketAddr;
use fastlink::common::time::{Duration, Instant};
use fastlink::netest::config::{TestConfig, TestSuite};
use fastlink::netest::emulator::{
    calculate_latency, corrupt_bytes, draw_corruption, draw_fate, plan_packet, FateDraws, PacketPlan, PendingQueue,
};
use fastlink::netest::models::{NetworkCondition, NetworkScenario, Packet, PPM};

fn packet(id: u64) -> Packet {
    Packet {
        data: vec![1, 2, 3, 4],
        src: SocketAddr::v4(10, 0, 0, 1, 1),
        dst: SocketAddr::v4(10, 0, 0, 2, 2),
        sent_at: Duration::zero(),
        id,
    }
}

#[test]
fn scenario_conditions_table() {
    let c = NetworkScenario::Mobile3G.conditions();
    assert_eq!(c.loss_rate, 30000);
    assert_eq!(c.base_latency, Duration::from_millis(200));
    assert_eq!(c.bandwidth_down, 384000);
    let p = NetworkScenario::Perfect.conditions();
    assert_eq!(p.loss_rate, 0);
    assert_eq!(p.latency_jitter, Duration::zero());
}

#[test]
fn benchmark_suite_has_seven_tests() {
    let s = TestSuite::benchmark_suite();
    assert_eq!(s.tests.len(), 7);
    assert_eq!(s.tests[0].name, "Perfect Network");
    assert_eq!(s.tests[6].scenario, NetworkScenario::RuralSlow);
    assert_eq!(s.tests[6].message_size, 256);
    let d = TestConfig::default();
    assert_eq!(d.scenario, NetworkScenario::HomeBroadband);
    assert_eq!(d.message_count, 1000);
}

#[test]
fn latency_with_and_without_jitter() {
    let mut c = NetworkCondition::default();
    assert_eq!(calculate_latency(&c, 3), Duration::from_millis(53));
    c.latency_jitter = Duration::zero();
    assert_eq!(calculate_latency(&c, 3), Duration::from_millis(50));
}

#[test]
fn plan_follows_draws() {
    let mut c = NetworkCondition::default();
    c.loss_rate = 500_000;
    c.reorder_rate = PPM;
    let d = FateDraws { loss: 499_999, corruption: 0, duplication: 0, reorder: 0, jitter_ms: 1, reorder_delay_ms: 20 };
    let p = plan_packet(&c, &d);
    assert!(p.drop);
    assert!(!p.corrupt);
    assert!(p.reorder);
    assert_eq!(p.extra_delay, Duration::from_millis(20));
    assert_eq!(p.latency, Duration::from_millis(51));
    let d2 = FateDraws { loss: 500_000, ..d };
    assert!(!plan_packet(&c, &d2).drop);
}

#[test]
fn fate_draws_in_range() {
    let c = NetworkCondition::default();
    for _ in 0..50 {
        let d = draw_fate(&c);
        assert!(d.loss < PPM && d.reorder < PPM);
        assert!(d.jitter_ms <= 5);
        assert!(d.reorder_delay_ms >= 10 && d.reorder_delay_ms < 50);
    }
}

#[test]
fn corruption_edits() {
    let edits = draw_corruption(4);
    assert!(!edits.is_empty() && edits.len() <= 4);
    assert!(edits.iter().all(|(i, _)| *i < 4));
    let mut data = vec![0u8; 4];
    corrupt_bytes(&mut data, &[(1, 7), (3, 9), (1, 8)]);
    assert_eq!(data, vec![0, 8, 0, 9]);
}

#[test]
fn pending_queue_delivers_in_order() {
    let mut q = PendingQueue::new();
    let now = Instant::now();
    let c = NetworkScenario::Perfect.conditions();
    let d = FateDraws { loss: 0, corruption: PPM - 1, duplication: 0, reorder: PPM - 1, jitter_ms: 0, reorder_delay_ms: 10 };
    let mut dup_cond = c;
    dup_cond.duplication_rate = 1;
    let plan = plan_packet(&dup_cond, &d);
    let a = q.accept_packet(packet(1), &plan, now);
    assert!(!a.dropped && a.duplicated && !a.reordered);
    assert!(q.take_due(now).is_empty());
    let due = q.take_due(now.plus(Duration::from_millis(1)));
    assert_eq!(due.len(), 2);
    assert_eq!(due[0].id, 1);
    assert_eq!(due[1].data, vec![1, 2, 3, 4]);
    let mut lossy = c;
    lossy.loss_rate = PPM;
    let dropped = q.accept_packet(packet(2), &plan_packet(&lossy, &d), now);
    assert!(dropped.dropped);
    assert!(q.take_due(now.plus(Duration::from_secs(10))).is_empty());
}

#[test]
fn pending_queue_holds_packets_for_their_latency() {
    let mut q = PendingQueue::new();
    let now = Instant::now();
    let plan = PacketPlan {
        drop: false,
        corrupt: false,
        duplicate: false,
        reorder: true,
        latency: Duration::from_millis(50),
        extra_delay: Duration::from_millis(10),
    };
    q.accept_packet(packet(7), &plan, now);
    assert!(q.take_due(now.plus(Duration::from_millis(59))).is_empty());
    let due = q.take_due(now.plus(Duration::from_millis(60)));
    assert_eq!(due.len(), 1);
    assert_eq!(due[0].id, 7);
}
