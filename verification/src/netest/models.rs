//! Emulated network conditions and the named scenarios they come in. Rates
//! are in parts per million.

use vstd::prelude::*;
use crate::common::net::SocketAddr;
use crate::common::time::Duration;

verus! {

/// One million: the rate of an event that always happens.
pub const PPM: u32 = 1_000_000;

/// A packet travelling through the emulator; `sent_at` is the time since
/// the emulation started.
#[derive(Debug, Clone)]
pub struct Packet {
    pub data: Vec<u8>,
    pub src: SocketAddr,
    pub dst: SocketAddr,
    pub sent_at: Duration,
    pub id: u64,
}

/// The conditions the emulator applies; rates are in parts per million,
/// bandwidths in bytes per second.
#[derive(Debug, Clone, Copy)]
pub struct NetworkCondition {
    pub loss_rate: u32,
    pub corruption_rate: u32,
    pub base_latency: Duration,
    pub latency_jitter: Duration,
    pub bandwidth_down: u64,
    pub bandwidth_up: u64,
    pub reorder_rate: u32,
    pub max_reorder_buffer: usize,
    pub duplication_rate: u32,
}

impl Default for NetworkCondition {
    /// A clean 100 MB/s link with 50 ms latency and 5 ms jitter.
    fn default() -> (c: NetworkCondition)
        ensures
            c.loss_rate == 0 && c.corruption_rate == 0 && c.reorder_rate == 0 && c.duplication_rate == 0,
            c.base_latency@ == 50_000_000,
            c.latency_jitter@ == 5_000_000,
            c.bandwidth_down == 100_000_000 && c.bandwidth_up == 100_000_000,
            c.max_reorder_buffer == 100,
    {
        NetworkCondition {
            loss_rate: 0,
            corruption_rate: 0,
            base_latency: Duration::from_millis(50),
            latency_jitter: Duration::from_millis(5),
            bandwidth_down: 100_000_000,
            bandwidth_up: 100_000_000,
            reorder_rate: 0,
            max_reorder_buffer: 100,
            duplication_rate: 0,
        }
    }
}

/// A named set of network conditions.
#[derive(Debug, Clone, Copy, PartialEq, Eq, Structural)]
pub enum NetworkScenario {
    Perfect,
    HomeBroadband,
    Mobile3G,
    Mobile4G,
    Mobile5G,
    Satellite,
    RuralSlow,
    Intermittent,
    HighLatency,
    Congested,
}

/// A scenario's conditions, with latencies in milliseconds.
pub struct ConditionTable {
    pub loss_rate: u32,
    pub corruption_rate: u32,
    pub base_latency_ms: u64,
    pub latency_jitter_ms: u64,
    pub bandwidth_down: u64,
    pub bandwidth_up: u64,
    pub reorder_rate: u32,
    pub max_reorder_buffer: usize,
    pub duplication_rate: u32,
}

/// The conditions of each scenario.
pub open spec fn spec_conditions(s: NetworkScenario) -> ConditionTable {
    match s {
        NetworkScenario::Perfect => ConditionTable {
            loss_rate: 0,
            corruption_rate: 0,
            base_latency_ms: 1,
            latency_jitter_ms: 0,
            bandwidth_down: 1000000000,
            bandwidth_up: 1000000000,
            reorder_rate: 0,
            max_reorder_buffer: 0,
            duplication_rate: 0,
        },
        NetworkScenario::HomeBroadband => ConditionTable {
            loss_rate: 1000,
            corruption_rate: 100,
            base_latency_ms: 20,
            latency_jitter_ms: 3,
            bandwidth_down: 100000000,
            bandwidth_up: 20000000,
            reorder_rate: 10000,
            max_reorder_buffer: 20,
            duplication_rate: 1000,
        },
        NetworkScenario::Mobile3G => ConditionTable {
            loss_rate: 30000,
            corruption_rate: 5000,
            base_latency_ms: 200,
            latency_jitter_ms: 50,
            bandwidth_down: 384000,
            bandwidth_up: 128000,
            reorder_rate: 50000,
            max_reorder_buffer: 100,
            duplication_rate: 10000,
        },
        NetworkScenario::Mobile4G => ConditionTable {
            loss_rate: 5000,
            corruption_rate: 1000,
            base_latency_ms: 30,
            latency_jitter_ms: 10,
            bandwidth_down: 50000000,
            bandwidth_up: 10000000,
            reorder_rate: 20000,
            max_reorder_buffer: 50,
            duplication_rate: 5000,
        },
        NetworkScenario::Mobile5G => ConditionTable {
            loss_rate: 1000,
            corruption_rate: 100,
            base_latency_ms: 10,
            latency_jitter_ms: 2,
            bandwidth_down: 1000000000,
            bandwidth_up: 200000000,
            reorder_rate: 5000,
            max_reorder_buffer: 30,
            duplication_rate: 1000,
        },
        NetworkScenario::Satellite => ConditionTable {
            loss_rate: 20000,
            corruption_rate: 3000,
            base_latency_ms: 600,
            latency_jitter_ms: 100,
            bandwidth_down: 20000000,
            bandwidth_up: 5000000,
            reorder_rate: 30000,
            max_reorder_buffer: 200,
            duplication_rate: 10000,
        },
        NetworkScenario::RuralSlow => ConditionTable {
            loss_rate: 50000,
            corruption_rate: 10000,
            base_latency_ms: 400,
            latency_jitter_ms: 80,
            bandwidth_down: 1000000,
            bandwidth_up: 256000,
            reorder_rate: 80000,
            max_reorder_buffer: 150,
            duplication_rate: 20000,
        },
        NetworkScenario::Intermittent => ConditionTable {
            loss_rate: 100000,
            corruption_rate: 10000,
            base_latency_ms: 150,
            latency_jitter_ms: 100,
            bandwidth_down: 10000000,
            bandwidth_up: 2000000,
            reorder_rate: 50000,
            max_reorder_buffer: 80,
            duplication_rate: 10000,
        },
        NetworkScenario::HighLatency => ConditionTable {
            loss_rate: 10000,
            corruption_rate: 2000,
            base_latency_ms: 500,
            latency_jitter_ms: 150,
            bandwidth_down: 50000000,
            bandwidth_up: 10000000,
            reorder_rate: 20000,
            max_reorder_buffer: 200,
            duplication_rate: 5000,
        },
        NetworkScenario::Congested => ConditionTable {
            loss_rate: 80000,
            corruption_rate: 5000,
            base_latency_ms: 300,
            latency_jitter_ms: 200,
            bandwidth_down: 5000000,
            bandwidth_up: 1000000,
            reorder_rate: 100000,
            max_reorder_buffer: 300,
            duplication_rate: 20000,
        },
    }
}

/// Whether `c` holds the conditions of `t`.
pub open spec fn matches_table(c: NetworkCondition, t: ConditionTable) -> bool {
    &&& c.loss_rate == t.loss_rate
    &&& c.corruption_rate == t.corruption_rate
    &&& c.base_latency@ == t.base_latency_ms * 1_000_000
    &&& c.latency_jitter@ == t.latency_jitter_ms * 1_000_000
    &&& c.bandwidth_down == t.bandwidth_down
    &&& c.bandwidth_up == t.bandwidth_up
    &&& c.reorder_rate == t.reorder_rate
    &&& c.max_reorder_buffer == t.max_reorder_buffer
    &&& c.duplication_rate == t.duplication_rate
}

impl NetworkScenario {
    /// The conditions of this scenario.
    pub fn conditions(&self) -> (c: NetworkCondition)
        ensures
            matches_table(c, spec_conditions(*self)),
    {
        match self {
            NetworkScenario::Perfect => NetworkCondition {
                loss_rate: 0,
                corruption_rate: 0,
                base_latency: Duration::from_millis(1),
                latency_jitter: Duration::from_millis(0),
                bandwidth_down: 1000000000,
                bandwidth_up: 1000000000,
                reorder_rate: 0,
                max_reorder_buffer: 0,
                duplication_rate: 0,
            },
            NetworkScenario::HomeBroadband => NetworkCondition {
                loss_rate: 1000,
                corruption_rate: 100,
                base_latency: Duration::from_millis(20),
                latency_jitter: Duration::from_millis(3),
                bandwidth_down: 100000000,
                bandwidth_up: 20000000,
                reorder_rate: 10000,
                max_reorder_buffer: 20,
                duplication_rate: 1000,
            },
            NetworkScenario::Mobile3G => NetworkCondition {
                loss_rate: 30000,
                corruption_rate: 5000,
                base_latency: Duration::from_millis(200),
                latency_jitter: Duration::from_millis(50),
                bandwidth_down: 384000,
                bandwidth_up: 128000,
                reorder_rate: 50000,
                max_reorder_buffer: 100,
                duplication_rate: 10000,
            },
            NetworkScenario::Mobile4G => NetworkCondition {
                loss_rate: 5000,
                corruption_rate: 1000,
                base_latency: Duration::from_millis(30),
                latency_jitter: Duration::from_millis(10),
                bandwidth_down: 50000000,
                bandwidth_up: 10000000,
                reorder_rate: 20000,
                max_reorder_buffer: 50,
                duplication_rate: 5000,
            },
            NetworkScenario::Mobile5G => NetworkCondition {
                loss_rate: 1000,
                corruption_rate: 100,
                base_latency: Duration::from_millis(10),
                latency_jitter: Duration::from_millis(2),
                bandwidth_down: 1000000000,
                bandwidth_up: 200000000,
                reorder_rate: 5000,
                max_reorder_buffer: 30,
                duplication_rate: 1000,
            },
            NetworkScenario::Satellite => NetworkCondition {
                loss_rate: 20000,
                corruption_rate: 3000,
                base_latency: Duration::from_millis(600),
                latency_jitter: Duration::from_millis(100),
                bandwidth_down: 20000000,
                bandwidth_up: 5000000,
                reorder_rate: 30000,
                max_reorder_buffer: 200,
                duplication_rate: 10000,
            },
            NetworkScenario::RuralSlow => NetworkCondition {
                loss_rate: 50000,
                corruption_rate: 10000,
                base_latency: Duration::from_millis(400),
                latency_jitter: Duration::from_millis(80),
                bandwidth_down: 1000000,
                bandwidth_up: 256000,
                reorder_rate: 80000,
                max_reorder_buffer: 150,
                duplication_rate: 20000,
            },
            NetworkScenario::Intermittent => NetworkCondition {
                loss_rate: 100000,
                corruption_rate: 10000,
                base_latency: Duration::from_millis(150),
                latency_jitter: Duration::from_millis(100),
                bandwidth_down: 10000000,
                bandwidth_up: 2000000,
                reorder_rate: 50000,
                max_reorder_buffer: 80,
                duplication_rate: 10000,
            },
            NetworkScenario::HighLatency => NetworkCondition {
                loss_rate: 10000,
                corruption_rate: 2000,
                base_latency: Duration::from_millis(500),
                latency_jitter: Duration::from_millis(150),
                bandwidth_down: 50000000,
                bandwidth_up: 10000000,
                reorder_rate: 20000,
                max_reorder_buffer: 200,
                duplication_rate: 5000,
            },
            NetworkScenario::Congested => NetworkCondition {
                loss_rate: 80000,
                corruption_rate: 5000,
                base_latency: Duration::from_millis(300),
                latency_jitter: Duration::from_millis(200),
                bandwidth_down: 5000000,
                bandwidth_up: 1000000,
                reorder_rate: 100000,
                max_reorder_buffer: 300,
                duplication_rate: 20000,
            },
        }
    }
}

/// Every scenario's rates are probabilities.
pub proof fn lemma_rates_are_probabilities(s: NetworkScenario)
    ensures
        spec_conditions(s).loss_rate <= PPM,
        spec_conditions(s).corruption_rate <= PPM,
        spec_conditions(s).reorder_rate <= PPM,
        spec_conditions(s).duplication_rate <= PPM,
{
}

/// Where an endpoint listens and the conditions on its two directions.
#[derive(Debug, Clone, Copy)]
pub struct EndpointConfig {
    pub listen_addr: SocketAddr,
    pub outgoing_condition: Option<NetworkCondition>,
    pub incoming_condition: Option<NetworkCondition>,
}

} // verus!
