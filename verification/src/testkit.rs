//! Test scenarios and message assertions for exercising the stack: the
//! scenarios' names, descriptions and time limits, the metrics a run
//! reports, and the checks on the order and timing of messages.

use vstd::prelude::*;
use crate::common::net::SocketAddr;
use crate::common::time::{Duration, Timestamp};

verus! {

/// Counts and latencies a scenario reports.
#[derive(Debug, Clone, Copy, Default)]
pub struct TestMetrics {
    pub packets_sent: u64,
    pub packets_received: u64,
    pub bytes_transferred: u64,
    pub avg_latency_ms: u32,
    pub max_latency_ms: u32,
}

/// The links of a simulated network and the packets they hold back.
#[derive(Debug, Clone, Copy)]
pub struct NetworkStats {
    pub active_links: usize,
    pub total_queued: usize,
}

/// Connection establishment through NAT with port prediction.
#[derive(Debug, Clone, Copy)]
pub struct P2PNatTraversalScenario;

/// Falling back to a relay when a direct connection fails.
#[derive(Debug, Clone, Copy)]
pub struct RelayFallbackScenario;

/// Aggregating bandwidth over several paths.
#[derive(Debug, Clone, Copy)]
pub struct MultipathAggregationScenario;

/// Metrics with every count zero.
pub open spec fn zero_metrics() -> TestMetrics {
    TestMetrics { packets_sent: 0, packets_received: 0, bytes_transferred: 0, avg_latency_ms: 0, max_latency_ms: 0 }
}

/// The time a scenario gets unless it says otherwise: a minute.
pub open spec fn default_timeout() -> nat {
    60_000_000_000
}

impl P2PNatTraversalScenario {
    /// The scenario's name.
    pub fn name(&self) -> (s: &'static str)
        ensures
            s@ == "p2p_nat_traversal"@,
    {
        "p2p_nat_traversal"
    }

    /// What the scenario tests.
    pub fn description(&self) -> (s: &'static str)
        ensures
            s@ == "Tests P2P connection establishment through NAT using BirthdayPunch algorithm"@,
    {
        "Tests P2P connection establishment through NAT using BirthdayPunch algorithm"
    }

    /// The time the scenario gets: thirty seconds.
    pub fn timeout(&self) -> (d: Duration)
        ensures
            d@ == 30_000_000_000,
    {
        Duration::from_secs(30)
    }

    /// The metrics of the hole punch, which reports nothing yet.
    pub fn test_hole_punch(&self) -> (r: Result<TestMetrics, String>)
        ensures
            r == Ok::<TestMetrics, String>(zero_metrics()),
    {
        Ok(TestMetrics { packets_sent: 0, packets_received: 0, bytes_transferred: 0, avg_latency_ms: 0, max_latency_ms: 0 })
    }
}

impl RelayFallbackScenario {
    /// The scenario's name.
    pub fn name(&self) -> (s: &'static str)
        ensures
            s@ == "relay_fallback"@,
    {
        "relay_fallback"
    }

    /// What the scenario tests.
    pub fn description(&self) -> (s: &'static str)
        ensures
            s@ == "Tests automatic relay fallback when P2P fails"@,
    {
        "Tests automatic relay fallback when P2P fails"
    }

    /// The time the scenario gets: the default minute.
    pub fn timeout(&self) -> (d: Duration)
        ensures
            d@ == default_timeout(),
    {
        Duration::from_secs(60)
    }

    /// The metrics of the relay test, which reports nothing yet.
    pub fn test_relay_fallback(&self) -> (r: Result<TestMetrics, String>)
        ensures
            r == Ok::<TestMetrics, String>(zero_metrics()),
    {
        Ok(TestMetrics { packets_sent: 0, packets_received: 0, bytes_transferred: 0, avg_latency_ms: 0, max_latency_ms: 0 })
    }
}

impl MultipathAggregationScenario {
    /// The scenario's name.
    pub fn name(&self) -> (s: &'static str)
        ensures
            s@ == "multipath_aggregation"@,
    {
        "multipath_aggregation"
    }

    /// What the scenario tests.
    pub fn description(&self) -> (s: &'static str)
        ensures
            s@ == "Tests bandwidth aggregation across multiple paths"@,
    {
        "Tests bandwidth aggregation across multiple paths"
    }

    /// The time the scenario gets: the default minute.
    pub fn timeout(&self) -> (d: Duration)
        ensures
            d@ == default_timeout(),
    {
        Duration::from_secs(60)
    }

    /// The metrics of the aggregation test, which reports nothing yet.
    pub fn test_aggregation(&self) -> (r: Result<TestMetrics, String>)
        ensures
            r == Ok::<TestMetrics, String>(zero_metrics()),
    {
        Ok(TestMetrics { packets_sent: 0, packets_received: 0, bytes_transferred: 0, avg_latency_ms: 0, max_latency_ms: 0 })
    }
}

/// A message observed in a test: its number, when it was seen (seconds
/// since the UNIX epoch), its endpoints and size.
#[derive(Debug, Clone, Copy)]
pub struct MessageAssertion {
    pub sequence: u64,
    pub timestamp: u64,
    pub source: SocketAddr,
    pub destination: SocketAddr,
    pub size: usize,
}

/// A failed check on the order or timing of messages.
#[derive(Debug, Clone, Copy, PartialEq, Eq, Structural)]
pub enum AssertionError {
    SequenceOutOfOrder { current: u64, previous: u64 },
    TimingExceeded { actual_delta: u64, max_delta: u64 },
}

impl AssertionError {
    /// The message of the failure.
    pub fn to_string(&self) -> (s: String)
        ensures
            s@ == spec_assertion_message(*self),
    {
        match self {
            AssertionError::SequenceOutOfOrder { current, previous } => {
                String::from_str("Sequence ").concat(crate::common::text::u64_decimal(*current).as_str()).concat(
                    " is not greater than previous ",
                ).concat(crate::common::text::u64_decimal(*previous).as_str())
            },
            AssertionError::TimingExceeded { actual_delta, max_delta } => {
                String::from_str("Timing delta ").concat(crate::common::text::u64_decimal(*actual_delta).as_str()).concat(
                    "ms exceeded maximum ",
                ).concat(crate::common::text::u64_decimal(*max_delta).as_str()).concat("ms")
            },
        }
    }
}

/// The message of each failure, with the numbers in decimal.
pub open spec fn spec_assertion_message(e: AssertionError) -> Seq<char> {
    match e {
        AssertionError::SequenceOutOfOrder { current, previous } => "Sequence "@ + crate::common::text::decimal(
            current as nat,
        ) + " is not greater than previous "@ + crate::common::text::decimal(previous as nat),
        AssertionError::TimingExceeded { actual_delta, max_delta } => "Timing delta "@ + crate::common::text::decimal(
            actual_delta as nat,
        ) + "ms exceeded maximum "@ + crate::common::text::decimal(max_delta as nat) + "ms"@,
    }
}

impl MessageAssertion {
    /// A message seen at `timestamp`.
    pub fn new_at(sequence: u64, source: SocketAddr, destination: SocketAddr, size: usize, timestamp: u64) -> (m: MessageAssertion)
        ensures
            m == (MessageAssertion { sequence, timestamp, source, destination, size }),
    {
        MessageAssertion { sequence, timestamp, source, destination, size }
    }

    /// A message seen now.
    pub fn new(sequence: u64, source: SocketAddr, destination: SocketAddr, size: usize) -> (m: MessageAssertion)
        ensures
            m.sequence == sequence,
            m.source == source,
            m.destination == destination,
            m.size == size,
    {
        let now = Timestamp::now().duration_since_epoch().as_secs();
        Self::new_at(sequence, source, destination, size, now)
    }

    /// Succeeds when this message's number is above `previous`'s.
    pub fn assert_sequence_order(&self, previous: &MessageAssertion) -> (r: Result<(), AssertionError>)
        ensures
            self.sequence > previous.sequence ==> r is Ok,
            self.sequence <= previous.sequence ==> r == Err::<(), AssertionError>(
                AssertionError::SequenceOutOfOrder { current: self.sequence, previous: previous.sequence },
            ),
    {
        if self.sequence <= previous.sequence {
            Err(AssertionError::SequenceOutOfOrder { current: self.sequence, previous: previous.sequence })
        } else {
            Ok(())
        }
    }

    /// Succeeds when this message came at most `max_delta_ms` after
    /// `previous` (a message seen earlier counts as no time at all).
    pub fn assert_timing_within(&self, previous: &MessageAssertion, max_delta_ms: u64) -> (r: Result<(), AssertionError>)
        ensures
            ({
                let delta = if self.timestamp >= previous.timestamp { (self.timestamp - previous.timestamp) as u64 } else { 0u64 };
                &&& delta <= max_delta_ms ==> r is Ok
                &&& delta > max_delta_ms ==> r == Err::<(), AssertionError>(
                    AssertionError::TimingExceeded { actual_delta: delta, max_delta: max_delta_ms },
                )
            }),
    {
        let delta = self.timestamp.saturating_sub(previous.timestamp);
        if delta > max_delta_ms {
            Err(AssertionError::TimingExceeded { actual_delta: delta, max_delta: max_delta_ms })
        } else {
            Ok(())
        }
    }
}

/// Sequence order is strict: two messages can never each pass as coming
/// after the other.
pub proof fn lemma_sequence_order_strict(a: MessageAssertion, b: MessageAssertion)
    ensures
        !(a.sequence > b.sequence && b.sequence > a.sequence),
        a.sequence <= b.sequence || b.sequence <= a.sequence,
{
}

} // verus!
