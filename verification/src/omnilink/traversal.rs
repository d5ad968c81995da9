//! Multi-strategy NAT traversal: which strategies to try for a pair of NAT
//! types, in which order, and the statistics of past attempts. Success
//! rates are held in thousandths.

use vstd::prelude::*;
use crate::common::net::SocketAddr;
use crate::common::text::{decimal, u64_decimal};
use crate::common::time::Duration;
use crate::omnilink::birthday_punch::BirthdayPunchConfig;
use crate::omnilink::ice::IceConfig;
use crate::omnilink::nat_detection::{NatProperties, NatType};

verus! {

/// A way to reach a peer.
#[derive(Debug, Clone, Copy, PartialEq, Eq, Structural, Hash)]
pub enum TraversalStrategy {
    /// Connect straight to the peer.
    Direct,
    /// Punch a hole with addresses learnt from STUN.
    StunHolePunch,
    /// Guess a symmetric NAT's ports.
    BirthdayPunch,
    /// Go through a TURN relay.
    TurnRelay,
}

/// The expected success rates, in thousandths, of the strategies known for
/// each NAT type.
pub open spec fn spec_success_rates() -> Seq<(NatType, TraversalStrategy, u32)> {
    seq![
        (NatType::Open, TraversalStrategy::Direct, 1000u32),
        (NatType::FullCone, TraversalStrategy::StunHolePunch, 950u32),
        (NatType::RestrictedCone, TraversalStrategy::StunHolePunch, 900u32),
        (NatType::PortRestrictedCone, TraversalStrategy::StunHolePunch, 850u32),
        (NatType::Symmetric, TraversalStrategy::BirthdayPunch, 600u32),
        (NatType::Symmetric, TraversalStrategy::StunHolePunch, 200u32),
        (NatType::Unknown, TraversalStrategy::TurnRelay, 1000u32),
        (NatType::Open, TraversalStrategy::TurnRelay, 1000u32),
        (NatType::FullCone, TraversalStrategy::TurnRelay, 1000u32),
        (NatType::RestrictedCone, TraversalStrategy::TurnRelay, 1000u32),
        (NatType::PortRestrictedCone, TraversalStrategy::TurnRelay, 1000u32),
        (NatType::Symmetric, TraversalStrategy::TurnRelay, 1000u32),
    ]
}

/// The expected success rates, in thousandths, of the strategies known for
/// each NAT type.
pub fn strategy_success_rates() -> (rates: Vec<(NatType, TraversalStrategy, u32)>)
    ensures
        rates@ == spec_success_rates(),
{
    let rates = vec![
        (NatType::Open, TraversalStrategy::Direct, 1000u32),
        (NatType::FullCone, TraversalStrategy::StunHolePunch, 950u32),
        (NatType::RestrictedCone, TraversalStrategy::StunHolePunch, 900u32),
        (NatType::PortRestrictedCone, TraversalStrategy::StunHolePunch, 850u32),
        (NatType::Symmetric, TraversalStrategy::BirthdayPunch, 600u32),
        (NatType::Symmetric, TraversalStrategy::StunHolePunch, 200u32),
        (NatType::Unknown, TraversalStrategy::TurnRelay, 1000u32),
        (NatType::Open, TraversalStrategy::TurnRelay, 1000u32),
        (NatType::FullCone, TraversalStrategy::TurnRelay, 1000u32),
        (NatType::RestrictedCone, TraversalStrategy::TurnRelay, 1000u32),
        (NatType::PortRestrictedCone, TraversalStrategy::TurnRelay, 1000u32),
        (NatType::Symmetric, TraversalStrategy::TurnRelay, 1000u32),
    ];
    assert(rates@ =~= spec_success_rates());
    rates
}

/// The rate of the first entry of `rates` for `nat_type` and `strategy`,
/// zero when there is none.
pub open spec fn spec_rate_in(rates: Seq<(NatType, TraversalStrategy, u32)>, nat_type: NatType, strategy: TraversalStrategy) -> u32
    decreases rates.len(),
{
    if rates.len() == 0 {
        0
    } else if rates[0].0 == nat_type && rates[0].1 == strategy {
        rates[0].2
    } else {
        spec_rate_in(rates.drop_first(), nat_type, strategy)
    }
}

/// The strategies to try, in order, for a local and a peer NAT type: a
/// direct connection when either side is open, port prediction first when
/// either side is symmetric, hole punching for cones, and always a relay
/// last.
pub open spec fn spec_select_strategy(local: NatType, peer: NatType) -> Seq<TraversalStrategy> {
    if local == NatType::Open || peer == NatType::Open {
        seq![TraversalStrategy::Direct, TraversalStrategy::TurnRelay]
    } else if local == NatType::Symmetric && peer == NatType::Symmetric {
        seq![TraversalStrategy::BirthdayPunch, TraversalStrategy::TurnRelay]
    } else if local == NatType::Symmetric || peer == NatType::Symmetric {
        seq![TraversalStrategy::BirthdayPunch, TraversalStrategy::StunHolePunch, TraversalStrategy::TurnRelay]
    } else if (local == NatType::FullCone || local == NatType::RestrictedCone) && (peer == NatType::FullCone
        || peer == NatType::RestrictedCone) {
        seq![TraversalStrategy::StunHolePunch, TraversalStrategy::TurnRelay]
    } else {
        seq![TraversalStrategy::StunHolePunch, TraversalStrategy::BirthdayPunch, TraversalStrategy::TurnRelay]
    }
}

/// How traversal is carried out.
#[derive(Debug, Clone)]
pub struct TraversalConfig {
    pub ice_config: IceConfig,
    pub birthday_config: BirthdayPunchConfig,
    pub strategy_priority: Vec<TraversalStrategy>,
    pub strategy_timeout: Duration,
    pub enable_turn_fallback: bool,
    pub turn_servers: Vec<SocketAddr>,
    pub max_birthday_attempts: u32,
    pub enable_port_learning: bool,
}

impl Default for TraversalConfig {
    /// Every strategy in the order direct, hole punching, port prediction,
    /// relay; ten seconds each; relay fallback on, with no servers.
    fn default() -> (c: TraversalConfig)
        ensures
            c.strategy_priority@ == seq![
                TraversalStrategy::Direct,
                TraversalStrategy::StunHolePunch,
                TraversalStrategy::BirthdayPunch,
                TraversalStrategy::TurnRelay,
            ],
            c.strategy_timeout@ == 10_000_000_000,
            c.enable_turn_fallback,
            c.turn_servers@.len() == 0,
            c.max_birthday_attempts == 3,
            c.enable_port_learning,
            c.birthday_config.prediction_range == 1000,
            c.birthday_config.prediction_attempts == 32,
    {
        let strategy_priority = vec![
            TraversalStrategy::Direct,
            TraversalStrategy::StunHolePunch,
            TraversalStrategy::BirthdayPunch,
            TraversalStrategy::TurnRelay,
        ];
        TraversalConfig {
            ice_config: IceConfig::default(),
            birthday_config: BirthdayPunchConfig::default(),
            strategy_priority,
            strategy_timeout: Duration::from_secs(10),
            enable_turn_fallback: true,
            turn_servers: Vec::new(),
            max_birthday_attempts: 3,
            enable_port_learning: true,
        }
    }
}

/// The outcome of a traversal.
#[derive(Debug, Clone)]
pub struct TraversalResult {
    pub success: bool,
    pub strategy_used: Option<TraversalStrategy>,
    pub connected_addr: Option<SocketAddr>,
    pub attempts: u32,
    pub duration: Duration,
    pub error: Option<String>,
    /// In thousandths.
    pub actual_success_rate: u32,
}

impl TraversalResult {
    /// A traversal that reached `addr` with `strategy`.
    pub fn success(addr: SocketAddr, strategy: TraversalStrategy, attempts: u32, duration: Duration) -> (r: TraversalResult)
        ensures
            r.success,
            r.strategy_used == Some(strategy),
            r.connected_addr == Some(addr),
            r.attempts == attempts,
            r.duration == duration,
            r.error is None,
            r.actual_success_rate == 1000,
    {
        TraversalResult {
            success: true,
            strategy_used: Some(strategy),
            connected_addr: Some(addr),
            attempts,
            duration,
            error: None,
            actual_success_rate: 1000,
        }
    }

    /// A traversal that failed with `error`.
    pub fn failure(error: String, attempts: u32, duration: Duration) -> (r: TraversalResult)
        ensures
            !r.success,
            r.strategy_used is None,
            r.connected_addr is None,
            r.attempts == attempts,
            r.duration == duration,
            r.error == Some(error),
            r.actual_success_rate == 0,
    {
        TraversalResult {
            success: false,
            strategy_used: None,
            connected_addr: None,
            attempts,
            duration,
            error: Some(error),
            actual_success_rate: 0,
        }
    }
}

/// Attempts and successes of one strategy against one NAT type, and the
/// moving average of its time.
#[derive(Debug, Clone, Copy, Default)]
pub struct StrategyStats {
    pub attempts: u32,
    pub successes: u32,
    pub avg_time_ms: u64,
}

/// The moving average after a new sample: the sample itself at first, then
/// nine tenths of the old average and one tenth of the sample.
pub open spec fn spec_moving_average(avg: u64, sample: u64) -> u64 {
    if avg == 0 { sample } else { ((avg * 9 + sample) / 10) as u64 }
}

/// The statistics after one more attempt.
pub open spec fn spec_record(s: StrategyStats, success: bool, time_ms: u64) -> StrategyStats {
    StrategyStats {
        attempts: (s.attempts + 1) as u32,
        successes: if success { (s.successes + 1) as u32 } else { s.successes },
        avg_time_ms: spec_moving_average(s.avg_time_ms, time_ms),
    }
}

/// The statistics kept for `key` in `stats`, if any.
pub open spec fn spec_stats_for(stats: Seq<((NatType, TraversalStrategy), StrategyStats)>, key: (NatType, TraversalStrategy)) -> Option<StrategyStats>
    decreases stats.len(),
{
    if stats.len() == 0 {
        None
    } else if stats.last().0 == key {
        Some(stats.last().1)
    } else {
        spec_stats_for(stats.drop_last(), key)
    }
}

/// The success rate in thousandths of some statistics: zero before any attempt.
pub open spec fn spec_rate(s: StrategyStats) -> u32 {
    if s.attempts == 0 { 0 } else { (s.successes * 1000 / (s.attempts as int)) as u32 }
}

/// Picks and orders traversal strategies and keeps their statistics.
pub struct NatTraversalEngine {
    config: TraversalConfig,
    local_nat: NatProperties,
    peer_nat: Option<NatProperties>,
    strategy_stats: Vec<((NatType, TraversalStrategy), StrategyStats)>,
}

impl NatTraversalEngine {
    /// Each key appears once in the statistics.
    #[verifier::type_invariant]
    spec fn well_formed(self) -> bool {
        &&& forall|i: int, j: int|
            0 <= i < j < self.strategy_stats@.len() ==> #[trigger] self.strategy_stats@[i].0
                != #[trigger] self.strategy_stats@[j].0
        &&& forall|i: int|
            0 <= i < self.strategy_stats@.len() ==> #[trigger] self.strategy_stats@[i].1.successes
                <= self.strategy_stats@[i].1.attempts
    }

    /// The configuration.
    pub closed spec fn spec_config(&self) -> TraversalConfig {
        self.config
    }

    /// The local NAT.
    pub closed spec fn spec_local_nat(&self) -> NatProperties {
        self.local_nat
    }

    /// The statistics, in the order their keys first appeared.
    pub closed spec fn spec_stats(&self) -> Seq<((NatType, TraversalStrategy), StrategyStats)> {
        self.strategy_stats@
    }

    /// A copy of the statistics, in the order their keys first appeared.
    pub fn strategy_stats(&self) -> (s: Vec<((NatType, TraversalStrategy), StrategyStats)>)
        ensures
            s@ == self.spec_stats(),
    {
        let mut s: Vec<((NatType, TraversalStrategy), StrategyStats)> = Vec::new();
        let mut i: usize = 0;
        while i < self.strategy_stats.len()
            invariant
                i <= self.strategy_stats@.len(),
                s@ == self.strategy_stats@.take(i as int),
            decreases self.strategy_stats@.len() - i,
        {
            s.push(self.strategy_stats[i]);
            assert(s@ =~= self.strategy_stats@.take(i as int + 1));
            i = i + 1;
        }
        assert(self.strategy_stats@.take(i as int) =~= self.strategy_stats@);
        s
    }

    /// An engine for the local NAT `local_nat`, with no statistics.
    pub fn new(config: TraversalConfig, local_nat: NatProperties) -> (e: NatTraversalEngine)
        ensures
            e.spec_config() == config,
            e.spec_local_nat() == local_nat,
            e.spec_stats().len() == 0,
    {
        NatTraversalEngine { config, local_nat, peer_nat: None, strategy_stats: Vec::new() }
    }

    /// The expected success rate of `strategy` against `nat_type`, in
    /// thousandths; zero where none is known.
    pub fn get_expected_success_rate(&self, nat_type: NatType, strategy: TraversalStrategy) -> (r: u32)
        ensures
            r == spec_rate_in(spec_success_rates(), nat_type, strategy),
    {
        let rates = strategy_success_rates();
        assert(rates@.skip(0) =~= rates@);
        let mut i: usize = 0;
        while i < rates.len()
            invariant
                i <= rates@.len(),
                rates@ == spec_success_rates(),
                spec_rate_in(rates@.skip(i as int), nat_type, strategy) == spec_rate_in(
                    spec_success_rates(),
                    nat_type,
                    strategy,
                ),
            decreases rates@.len() - i,
        {
            let (nt, s, rate) = rates[i];
            proof {
                assert(rates@.skip(i as int).drop_first() =~= rates@.skip(i as int + 1));
            }
            if nt == nat_type && s == strategy {
                return rate;
            }
            i = i + 1;
        }
        0
    }

    /// The strategies to try against `peer_nat`, in order.
    pub fn select_strategy(&self, peer_nat: &NatProperties) -> (s: Vec<TraversalStrategy>)
        ensures
            s@ == spec_select_strategy(self.spec_local_nat().nat_type, peer_nat.nat_type),
    {
        let local = self.local_nat.nat_type;
        let peer = peer_nat.nat_type;
        let s = if local == NatType::Open || peer == NatType::Open {
            vec![TraversalStrategy::Direct, TraversalStrategy::TurnRelay]
        } else if local == NatType::Symmetric && peer == NatType::Symmetric {
            vec![TraversalStrategy::BirthdayPunch, TraversalStrategy::TurnRelay]
        } else if local == NatType::Symmetric || peer == NatType::Symmetric {
            vec![TraversalStrategy::BirthdayPunch, TraversalStrategy::StunHolePunch, TraversalStrategy::TurnRelay]
        } else if (local == NatType::FullCone || local == NatType::RestrictedCone) && (peer == NatType::FullCone
            || peer == NatType::RestrictedCone) {
            vec![TraversalStrategy::StunHolePunch, TraversalStrategy::TurnRelay]
        } else {
            vec![TraversalStrategy::StunHolePunch, TraversalStrategy::BirthdayPunch, TraversalStrategy::TurnRelay]
        };
        assert(s@ =~= spec_select_strategy(local, peer));
        s
    }

    /// The addresses `strategy` tries, in order: the peer's candidates for a
    /// direct connection or hole punching, none for port prediction (which
    /// needs a bound socket), and the TURN servers for a relay when the
    /// fallback is on.
    pub fn strategy_targets(&self, strategy: TraversalStrategy, peer_candidates: &[SocketAddr]) -> (t: Vec<SocketAddr>)
        ensures
            t@ == match strategy {
                TraversalStrategy::Direct => peer_candidates@,
                TraversalStrategy::StunHolePunch => peer_candidates@,
                TraversalStrategy::BirthdayPunch => Seq::<SocketAddr>::empty(),
                TraversalStrategy::TurnRelay => if self.spec_config().enable_turn_fallback {
                    self.spec_config().turn_servers@
                } else {
                    Seq::<SocketAddr>::empty()
                },
            },
    {
        let mut t: Vec<SocketAddr> = Vec::new();
        match strategy {
            TraversalStrategy::Direct | TraversalStrategy::StunHolePunch => {
                let mut i: usize = 0;
                while i < peer_candidates.len()
                    invariant
                        i <= peer_candidates@.len(),
                        t@ == peer_candidates@.take(i as int),
                    decreases peer_candidates@.len() - i,
                {
                    t.push(peer_candidates[i]);
                    proof {
                        assert(t@ =~= peer_candidates@.take(i as int + 1));
                    }
                    i = i + 1;
                }
                assert(t@ =~= peer_candidates@);
            },
            TraversalStrategy::BirthdayPunch => {},
            TraversalStrategy::TurnRelay => {
                if self.config.enable_turn_fallback {
                    let servers = &self.config.turn_servers;
                    let mut i: usize = 0;
                    while i < servers.len()
                        invariant
                            i <= servers@.len(),
                            t@ == servers@.take(i as int),
                        decreases servers@.len() - i,
                    {
                        t.push(servers[i]);
                        proof {
                            assert(t@ =~= servers@.take(i as int + 1));
                        }
                        i = i + 1;
                    }
                    assert(t@ =~= servers@);
                }
            },
        }
        t
    }

    /// The result of a traversal that tried `strategies` in order: success
    /// with the strategy at `reached`'s position and its address, or the
    /// failure after every strategy was tried.
    pub fn traversal_result(strategies: &[TraversalStrategy], reached: Option<(usize, SocketAddr)>, duration: Duration) -> (r: TraversalResult)
        requires
            strategies@.len() < u32::MAX,
            reached matches Some((i, _)) ==> i < strategies@.len(),
        ensures
            match reached {
                Some((i, addr)) => r.success && r.strategy_used == Some(strategies@[i as int])
                    && r.connected_addr == Some(addr) && r.attempts == i + 1 && r.duration == duration
                    && r.error is None && r.actual_success_rate == 1000,
                None => !r.success && r.strategy_used is None && r.connected_addr is None
                    && r.attempts == strategies@.len() && r.duration == duration
                    && (r.error matches Some(e) && e@ == "All traversal strategies exhausted"@)
                    && r.actual_success_rate == 0,
            },
    {
        match reached {
            Some((i, addr)) => TraversalResult::success(addr, strategies[i], (i + 1) as u32, duration),
            None => TraversalResult::failure(
                String::from_str("All traversal strategies exhausted"),
                strategies.len() as u32,
                duration,
            ),
        }
    }

    /// The position of the statistics for `nat_type` and `strategy`, or the
    /// number of entries when there are none.
    fn find_stats(&self, nat_type: NatType, strategy: TraversalStrategy) -> (i: usize)
        ensures
            i <= self.spec_stats().len(),
            forall|k: int| 0 <= k < i ==> #[trigger] self.spec_stats()[k].0 != (nat_type, strategy),
            i < self.spec_stats().len() ==> self.spec_stats()[i as int].0 == (nat_type, strategy),
    {
        let mut i: usize = 0;
        while i < self.strategy_stats.len() && !(self.strategy_stats[i].0.0 == nat_type
            && self.strategy_stats[i].0.1 == strategy)
            invariant
                i <= self.strategy_stats@.len(),
                forall|k: int| 0 <= k < i ==> #[trigger] self.strategy_stats@[k].0 != (nat_type, strategy),
            decreases self.strategy_stats@.len() - i,
        {
            assert(self.strategy_stats@[i as int].0 != (nat_type, strategy));
            i = i + 1;
        }
        i
    }

    /// Records an attempt of `strategy` against `nat_type` that took
    /// `time_ms`.
    pub fn update_stats(&mut self, nat_type: NatType, strategy: TraversalStrategy, success: bool, time_ms: u64)
        requires
            match spec_stats_for(old(self).spec_stats(), (nat_type, strategy)) {
                Some(s) => s.attempts < u32::MAX,
                None => true,
            },
        ensures
            final(self).spec_config() == old(self).spec_config(),
            final(self).spec_local_nat() == old(self).spec_local_nat(),
            spec_stats_for(final(self).spec_stats(), (nat_type, strategy)) == Some(
                spec_record(
                    match spec_stats_for(old(self).spec_stats(), (nat_type, strategy)) {
                        Some(s) => s,
                        None => StrategyStats { attempts: 0, successes: 0, avg_time_ms: 0 },
                    },
                    success,
                    time_ms,
                ),
            ),
            forall|k: (NatType, TraversalStrategy)|
                k != (nat_type, strategy) ==> #[trigger] spec_stats_for(final(self).spec_stats(), k)
                    == spec_stats_for(old(self).spec_stats(), k),
    {
        proof {
            use_type_invariant(&*self);
        }
        let key = (nat_type, strategy);
        let i = self.find_stats(nat_type, strategy);
        proof {
            lemma_stats_for_index(self.strategy_stats@, key, i as int);
        }
        let old_stats = if i < self.strategy_stats.len() {
            self.strategy_stats[i].1
        } else {
            StrategyStats { attempts: 0, successes: 0, avg_time_ms: 0 }
        };
        let successes = if success { old_stats.successes + 1 } else { old_stats.successes };
        let avg: u64 = if old_stats.avg_time_ms == 0 {
            time_ms
        } else {
            ((old_stats.avg_time_ms as u128 * 9 + time_ms as u128) / 10) as u64
        };
        let updated = StrategyStats { attempts: old_stats.attempts + 1, successes, avg_time_ms: avg };
        let ghost before = self.strategy_stats@;
        let mut stats: Vec<((NatType, TraversalStrategy), StrategyStats)> = Vec::new();
        std::mem::swap(&mut stats, &mut self.strategy_stats);
        if i < stats.len() {
            stats.set(i, (key, updated));
        } else {
            stats.push((key, updated));
        }
        proof {
            assert forall|a: int, b: int| 0 <= a < b < stats@.len() implies #[trigger] stats@[a].0
                != #[trigger] stats@[b].0 by {
                if i < before.len() {
                    assert(before[i as int].0 == key);
                }
                if a != i && b != i {
                    assert(stats@[a] == before[a] && stats@[b] == before[b]);
                } else if a == i {
                    assert(stats@[b] == before[b]);
                } else {
                    assert(stats@[a] == before[a]);
                }
            }
            assert forall|a: int| 0 <= a < stats@.len() implies #[trigger] stats@[a].1.successes <= stats@[a].1.attempts by {
                if a != i {
                    assert(stats@[a] == before[a]);
                }
            }
            lemma_stats_for_index(stats@, key, i as int);
            assert forall|k: (NatType, TraversalStrategy)| k != key implies #[trigger] spec_stats_for(stats@, k)
                == spec_stats_for(before, k) by {
                lemma_stats_for_other(before, stats@, key, k, i as int);
            }
        }
        self.strategy_stats = stats;
    }

    /// The success rate so far of `strategy` against `nat_type`, in
    /// thousandths; `None` before any record for them.
    pub fn get_actual_success_rate(&self, nat_type: NatType, strategy: TraversalStrategy) -> (r: Option<u32>)
        ensures
            r == match spec_stats_for(self.spec_stats(), (nat_type, strategy)) {
                Some(s) => Some(spec_rate(s)),
                None => None::<u32>,
            },
    {
        proof {
            use_type_invariant(self);
        }
        let key = (nat_type, strategy);
        let i = self.find_stats(nat_type, strategy);
        proof {
            lemma_stats_for_index(self.strategy_stats@, key, i as int);
        }
        if i < self.strategy_stats.len() {
            let s = self.strategy_stats[i].1;
            if s.attempts == 0 {
                Some(0)
            } else {
                proof {
                    assert(s.successes * 1000 / (s.attempts as int) <= 1000) by (nonlinear_arith)
                        requires s.successes <= s.attempts, s.attempts > 0;
                }
                Some(((s.successes as u64) * 1000 / (s.attempts as u64)) as u32)
            }
        } else {
            None
        }
    }
}

/// Where `key` sits in `stats` decides what is kept for it.
proof fn lemma_stats_for_index(stats: Seq<((NatType, TraversalStrategy), StrategyStats)>, key: (NatType, TraversalStrategy), i: int)
    requires
        0 <= i <= stats.len(),
        forall|k: int| 0 <= k < i ==> #[trigger] stats[k].0 != key,
        i < stats.len() ==> stats[i].0 == key,
        forall|a: int, b: int| 0 <= a < b < stats.len() ==> #[trigger] stats[a].0 != #[trigger] stats[b].0,
    ensures
        spec_stats_for(stats, key) == if i < stats.len() { Some(stats[i].1) } else { None::<StrategyStats> },
    decreases stats.len(),
{
    if stats.len() > 0 {
        if stats.last().0 == key {
            assert(i == stats.len() - 1);
        } else {
            let rest = stats.drop_last();
            if i < stats.len() {
                assert(i < stats.len() - 1);
            }
            lemma_stats_for_index(rest, key, if i < stats.len() { i } else { rest.len() as int });
        }
    }
}

/// Replacing or adding the entry for `key` leaves every other key's entry.
proof fn lemma_stats_for_other(
    before: Seq<((NatType, TraversalStrategy), StrategyStats)>,
    after: Seq<((NatType, TraversalStrategy), StrategyStats)>,
    key: (NatType, TraversalStrategy),
    other: (NatType, TraversalStrategy),
    i: int,
)
    requires
        other != key,
        0 <= i <= before.len(),
        i < before.len() ==> after == before.update(i, (key, after[i].1)) && before[i].0 == key,
        i == before.len() ==> after == before.push((key, after[i].1)),
    ensures
        spec_stats_for(after, other) == spec_stats_for(before, other),
    decreases before.len(),
{
    if i == before.len() {
        assert(after.drop_last() =~= before);
    } else if i == before.len() - 1 {
        assert(after.drop_last() =~= before.drop_last());
    } else {
        assert(after.last() == before.last());
        if before.last().0 != other {
            let a2 = after.drop_last();
            let b2 = before.drop_last();
            assert(a2 =~= b2.update(i, (key, after[i].1)));
            lemma_stats_for_other(b2, a2, key, other, i);
        }
    }
}

/// Whether a NAT type usually needs port prediction.
pub fn is_difficult_nat(nat_type: NatType) -> (b: bool)
    ensures
        b == (nat_type == NatType::Symmetric || nat_type == NatType::PortRestrictedCone),
{
    match nat_type {
        NatType::Symmetric | NatType::PortRestrictedCone => true,
        _ => false,
    }
}

/// The single strategy to recommend for a pair of NAT types.
pub open spec fn spec_recommend_strategy(local: NatType, peer: NatType) -> TraversalStrategy {
    if local == NatType::Open || peer == NatType::Open {
        TraversalStrategy::Direct
    } else if local == NatType::Symmetric || peer == NatType::Symmetric {
        TraversalStrategy::BirthdayPunch
    } else {
        TraversalStrategy::StunHolePunch
    }
}

/// The single strategy to recommend for a pair of NAT types.
pub fn recommend_strategy(local_nat: NatType, peer_nat: NatType) -> (s: TraversalStrategy)
    ensures
        s == spec_recommend_strategy(local_nat, peer_nat),
{
    match (local_nat, peer_nat) {
        (NatType::Open, _) | (_, NatType::Open) => TraversalStrategy::Direct,
        (NatType::Symmetric, _) | (_, NatType::Symmetric) => TraversalStrategy::BirthdayPunch,
        (NatType::FullCone, NatType::FullCone) => TraversalStrategy::StunHolePunch,
        _ => TraversalStrategy::StunHolePunch,
    }
}

/// A relay is always the last resort: every plan ends with it.
pub proof fn lemma_plan_ends_with_relay(local: NatType, peer: NatType)
    ensures
        spec_select_strategy(local, peer).len() >= 2,
        spec_select_strategy(local, peer).last() == TraversalStrategy::TurnRelay,
{
}

/// The recommended strategy is the first one a plan tries.
pub proof fn lemma_recommendation_leads_plan(local: NatType, peer: NatType)
    ensures
        spec_select_strategy(local, peer)[0] == spec_recommend_strategy(local, peer),
{
}

/// A symmetric NAT on either side, with no open host, puts port prediction
/// in the plan.
pub proof fn lemma_symmetric_plans_prediction(local: NatType, peer: NatType)
    requires
        local == NatType::Symmetric || peer == NatType::Symmetric,
        local != NatType::Open && peer != NatType::Open,
    ensures
        spec_select_strategy(local, peer)[0] == TraversalStrategy::BirthdayPunch,
{
}

/// With exactly one symmetric side and no open host, port prediction comes
/// first, then hole punching, then a relay.
pub proof fn lemma_one_symmetric_plan(local: NatType, peer: NatType)
    requires
        (local == NatType::Symmetric) != (peer == NatType::Symmetric),
        local != NatType::Open && peer != NatType::Open,
    ensures
        spec_select_strategy(local, peer) == seq![
            TraversalStrategy::BirthdayPunch,
            TraversalStrategy::StunHolePunch,
            TraversalStrategy::TurnRelay,
        ],
{
}

/// Hole punching is tried exactly when no host is open and the two sides
/// are not both symmetric.
pub proof fn lemma_hole_punching_tried(local: NatType, peer: NatType)
    ensures
        spec_select_strategy(local, peer).contains(TraversalStrategy::StunHolePunch) <==> (local != NatType::Open
            && peer != NatType::Open && !(local == NatType::Symmetric && peer == NatType::Symmetric)),
{
    let p = spec_select_strategy(local, peer);
    if local == NatType::Open || peer == NatType::Open || (local == NatType::Symmetric && peer == NatType::Symmetric) {
        assert(p[0] != TraversalStrategy::StunHolePunch && p[1] != TraversalStrategy::StunHolePunch);
        assert(p.len() == 2);
    } else {
        assert(p[0] == TraversalStrategy::StunHolePunch || p[1] == TraversalStrategy::StunHolePunch);
    }
}

/// A direct connection is tried exactly when a host is open, and port
/// prediction exactly when no host is open and some side is symmetric or
/// the two are not both full or restricted cones.
pub proof fn lemma_direct_and_prediction_tried(local: NatType, peer: NatType)
    ensures
        spec_select_strategy(local, peer).contains(TraversalStrategy::Direct) <==> (local == NatType::Open
            || peer == NatType::Open),
        spec_select_strategy(local, peer).contains(TraversalStrategy::BirthdayPunch) <==> (local != NatType::Open
            && peer != NatType::Open && !((local == NatType::FullCone || local == NatType::RestrictedCone) && (peer
            == NatType::FullCone || peer == NatType::RestrictedCone))),
{
    let p = spec_select_strategy(local, peer);
    assert(p.len() == 2 || p.len() == 3);
    if p.len() == 2 {
        assert(p.contains(p[0]) && p.contains(p[1]));
        assert forall|x: TraversalStrategy| p.contains(x) implies x == p[0] || x == p[1] by {
            let k = choose|k: int| 0 <= k < p.len() && p[k] == x;
        }
    } else {
        assert(p.contains(p[0]) && p.contains(p[1]) && p.contains(p[2]));
        assert forall|x: TraversalStrategy| p.contains(x) implies x == p[0] || x == p[1] || x == p[2] by {
            let k = choose|k: int| 0 <= k < p.len() && p[k] == x;
        }
    }
}

} // verus!