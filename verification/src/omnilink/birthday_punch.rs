//! Port prediction for symmetric NATs: sequential, delta-based and
//! birthday-paradox random guesses of the peer's next public port.

use vstd::prelude::*;
use std::collections::HashSet;
use crate::common::time::Duration;
use crate::omnilink::nat_detection::{NatProperties, NatType};

verus! {

broadcast use vstd::std_specs::hash::group_hash_axioms;

/// How ports are predicted.
#[derive(Debug, Clone, Copy)]
pub struct BirthdayPunchConfig {
    /// The width of the window of random guesses around the base port.
    pub prediction_range: u16,
    /// How many ports to predict.
    pub prediction_attempts: usize,
    pub punch_timeout: Duration,
    pub punch_interval: Duration,
    pub enable_sequential_prediction: bool,
    pub enable_random_prediction: bool,
    pub enable_delta_prediction: bool,
}

impl Default for BirthdayPunchConfig {
    /// A window of 1000 ports, 32 guesses, every predictor on.
    fn default() -> (c: BirthdayPunchConfig)
        ensures
            c.prediction_range == 1000,
            c.prediction_attempts == 32,
            c.punch_timeout@ == 500_000_000,
            c.punch_interval@ == 10_000_000,
            c.enable_sequential_prediction,
            c.enable_random_prediction,
            c.enable_delta_prediction,
    {
        BirthdayPunchConfig {
            prediction_range: 1000,
            prediction_attempts: 32,
            punch_timeout: Duration::from_millis(500),
            punch_interval: Duration::from_millis(10),
            enable_sequential_prediction: true,
            enable_random_prediction: true,
            enable_delta_prediction: true,
        }
    }
}

/// The predictor whose guesses a prediction is based on.
#[derive(Debug, Clone, Copy, PartialEq, Eq, Structural)]
pub enum PredictionStrategy {
    Sequential,
    Random,
    Delta,
    Combined,
}

/// Predicted ports, in the order to try them, without repeats.
#[derive(Debug, Clone)]
pub struct PortPrediction {
    pub strategy: PredictionStrategy,
    pub predicted_ports: Vec<u16>,
    pub observed_delta: Option<i16>,
}

/// A `u16` read as the `i16` with the same bits.
pub open spec fn as_signed(v: u16) -> int {
    if v < 0x8000 { v as int } else { v as int - 0x10000 }
}

/// An `i16` value read as the `u16` with the same bits.
pub open spec fn as_unsigned(v: int) -> u16 {
    if v < 0 { (v + 0x10000) as u16 } else { v as u16 }
}

/// Whether `v` fits an `i16`.
pub open spec fn fits_i16(v: int) -> bool {
    -0x8000 <= v <= 0x7FFF
}

/// The port deltas of the public ports `ports`: each port minus the one before.
pub open spec fn port_deltas(ports: Seq<u16>) -> Seq<int> {
    Seq::new((ports.len() - 1) as nat, |i: int| as_signed(ports[i + 1]) - as_signed(ports[i]))
}

/// The sum of the first `n` deltas.
pub open spec fn delta_sum(deltas: Seq<int>, n: int) -> int
    decreases n,
{
    if n <= 0 { 0 } else { delta_sum(deltas, n - 1) + deltas[n - 1] }
}

/// Integer division rounding toward zero, by a positive divisor.
pub open spec fn div_toward_zero(a: int, b: int) -> int {
    if a >= 0 { a / b } else { -((-a) / b) }
}

/// The public ports of observed (local, public) mappings.
pub open spec fn public_ports(mappings: Seq<(u16, u16)>) -> Seq<u16> {
    Seq::new(mappings.len(), |i: int| mappings[i].1)
}

/// The delta learnt from at least two mappings: 1 when every step is 1, the
/// average step (rounded toward zero) otherwise.
pub open spec fn spec_learnt_delta(mappings: Seq<(u16, u16)>) -> i16 {
    let deltas = port_deltas(public_ports(mappings));
    if forall|i: int| 0 <= i < deltas.len() ==> deltas[i] == 1 {
        1
    } else {
        div_toward_zero(delta_sum(deltas, deltas.len() as int), deltas.len() as int) as i16
    }
}

/// Mappings whose deltas and running sums of deltas fit `i16` arithmetic.
pub open spec fn analyzable(mappings: Seq<(u16, u16)>) -> bool {
    let deltas = port_deltas(public_ports(mappings));
    &&& mappings.len() <= 0x8000
    &&& forall|i: int| 0 <= i < deltas.len() ==> fits_i16(#[trigger] deltas[i])
    &&& forall|n: int| 0 <= n <= deltas.len() ==> fits_i16(#[trigger] delta_sum(deltas, n))
}

/// `count` consecutive ports from `base`.
pub open spec fn sequential_ports(base: u16, count: nat) -> Seq<u16> {
    Seq::new(count, |i: int| (base + i) as u16)
}

/// `count` ports from `base`, `delta` apart, in 16-bit signed arithmetic.
pub open spec fn delta_ports(base: u16, delta: i16, count: nat) -> Seq<u16> {
    Seq::new(count, |i: int| as_unsigned(as_signed(base) + delta * i))
}

/// Whether the `count` delta guesses from `base` fit `i16` arithmetic.
pub open spec fn delta_fits(base: u16, delta: i16, count: nat) -> bool {
    &&& count <= 0x8000
    &&& forall|i: int| 0 <= i < count ==> fits_i16(#[trigger] (delta * i)) && fits_i16(
        as_signed(base) + delta * i,
    )
}

/// The first port of the random window around `base`.
pub open spec fn window_start(base: u16, range: u16) -> u16 {
    if base >= range / 2 { (base - range / 2) as u16 } else { 0 }
}

/// The end (exclusive) of the random window around `base`.
pub open spec fn window_end(base: u16, range: u16) -> u16 {
    if base + range / 2 <= 0xFFFF { (base + range / 2) as u16 } else { 0xFFFF }
}

/// The ports of the random window around `base`, in increasing order.
pub open spec fn window_ports(base: u16, range: u16) -> Seq<u16> {
    let start = window_start(base, range);
    let end = window_end(base, range);
    Seq::new(if start <= end { (end - start) as nat } else { 0 }, |i: int| (start + i) as u16)
}

/// `s` without repeats, keeping each port's first occurrence.
pub open spec fn dedup(s: Seq<u16>) -> Seq<u16>
    decreases s.len(),
{
    if s.len() == 0 {
        s
    } else if dedup(s.drop_last()).contains(s.last()) {
        dedup(s.drop_last())
    } else {
        dedup(s.drop_last()).push(s.last())
    }
}

/// The guesses made before the random ones.
pub open spec fn guided_ports(config: BirthdayPunchConfig, delta: Option<i16>, base: Option<u16>) -> Seq<u16> {
    let k = (config.prediction_attempts / 3) as nat;
    let seq_part = if config.enable_sequential_prediction && base is Some {
        sequential_ports(base->0, k)
    } else {
        Seq::empty()
    };
    let delta_part = if config.enable_delta_prediction && delta is Some && base is Some {
        delta_ports(base->0, delta->0, k)
    } else {
        Seq::empty()
    };
    seq_part + delta_part
}

/// The predictor a prediction is reported as based on.
pub open spec fn spec_prediction_strategy(config: BirthdayPunchConfig, delta: Option<i16>, base: Option<u16>) -> PredictionStrategy {
    if config.enable_delta_prediction && delta is Some && base is Some {
        PredictionStrategy::Delta
    } else if config.enable_sequential_prediction && base is Some {
        PredictionStrategy::Sequential
    } else if config.enable_random_prediction {
        PredictionStrategy::Random
    } else {
        PredictionStrategy::Combined
    }
}

/// The predicted ports, given the random window in the order it was
/// shuffled into.
pub open spec fn spec_predicted_ports(
    config: BirthdayPunchConfig,
    delta: Option<i16>,
    base: Option<u16>,
    shuffled: Seq<u16>,
) -> Seq<u16> {
    let guided = guided_ports(config, delta, base);
    if config.enable_random_prediction {
        let take = config.prediction_attempts - guided.len();
        let n = if take < shuffled.len() { take } else { shuffled.len() as int };
        dedup(guided + shuffled.take(n))
    } else {
        dedup(guided)
    }
}

/// Whether the guided guesses fit the port and `i16` arithmetic.
pub open spec fn prediction_fits(config: BirthdayPunchConfig, delta: Option<i16>, base: Option<u16>) -> bool {
    let k = (config.prediction_attempts / 3) as nat;
    &&& (config.enable_sequential_prediction && base is Some && k > 0) ==> base->0 + k - 1 <= 0xFFFF
    &&& (config.enable_delta_prediction && delta is Some && base is Some) ==> delta_fits(
        base->0,
        delta->0,
        k,
    )
}

/// Calls `rand::seq::SliceRandom::shuffle` with the thread generator; the
/// order is random, and the contract states only that the ports are
/// rearranged.
#[verifier::external_body]
fn shuffle_ports(ports: &mut Vec<u16>)
    ensures
        final(ports)@.to_multiset() == old(ports)@.to_multiset(),
        final(ports)@.len() == old(ports)@.len(),
{
    rand::seq::SliceRandom::shuffle(ports.as_mut_slice(), &mut rand::thread_rng());
}

/// Predicts a symmetric NAT's port allocations from observed mappings.
pub struct BirthdayPunch {
    config: BirthdayPunchConfig,
    nat_properties: NatProperties,
    observed_ports: Vec<u16>,
    last_predicted_delta: Option<i16>,
}

impl BirthdayPunch {
    /// The configuration.
    pub closed spec fn spec_config(&self) -> BirthdayPunchConfig {
        self.config
    }

    /// The NAT being traversed.
    pub closed spec fn spec_nat(&self) -> NatProperties {
        self.nat_properties
    }

    /// The public ports of the last analysed mappings.
    pub closed spec fn spec_observed_ports(&self) -> Seq<u16> {
        self.observed_ports@
    }

    /// The port delta learnt from the last analysis.
    pub closed spec fn spec_delta(&self) -> Option<i16> {
        self.last_predicted_delta
    }

    /// A predictor that has observed nothing.
    pub fn new(config: BirthdayPunchConfig, nat_properties: NatProperties) -> (b: BirthdayPunch)
        ensures
            b.spec_config() == config,
            b.spec_nat() == nat_properties,
            b.spec_observed_ports() == Seq::<u16>::empty(),
            b.spec_delta() is None,
    {
        BirthdayPunch { config, nat_properties, observed_ports: Vec::new(), last_predicted_delta: None }
    }

    /// The port delta learnt from the last analysis.
    pub fn last_predicted_delta(&self) -> (d: Option<i16>)
        ensures
            d == self.spec_delta(),
    {
        self.last_predicted_delta
    }

    /// The public ports of the last analysed mappings.
    pub fn observed_ports(&self) -> (p: &[u16])
        ensures
            p@ == self.spec_observed_ports(),
    {
        self.observed_ports.as_slice()
    }

    /// Learns the port delta from (local, public) mappings; fewer than two
    /// mappings teach nothing.
    pub fn analyze_nat_behavior(&mut self, observed_mappings: &[(u16, u16)])
        requires
            analyzable(observed_mappings@),
        ensures
            final(self).spec_config() == old(self).spec_config(),
            final(self).spec_nat() == old(self).spec_nat(),
            observed_mappings@.len() < 2 ==> final(self).spec_delta() == old(self).spec_delta()
                && final(self).spec_observed_ports() == old(self).spec_observed_ports(),
            observed_mappings@.len() >= 2 ==> final(self).spec_delta() == Some(
                spec_learnt_delta(observed_mappings@),
            ) && final(self).spec_observed_ports() == public_ports(observed_mappings@),
    {
        let n = observed_mappings.len();
        if n < 2 {
            return;
        }
        let ghost ports = public_ports(observed_mappings@);
        let ghost deltas = port_deltas(ports);
        let mut all_ones = true;
        let mut sum: i32 = 0;
        let mut i: usize = 1;
        while i < n
            invariant
                n == observed_mappings@.len(),
                analyzable(observed_mappings@),
                ports == public_ports(observed_mappings@),
                deltas == port_deltas(ports),
                1 <= i <= n,
                sum == delta_sum(deltas, i - 1),
                all_ones == forall|j: int| 0 <= j < i - 1 ==> deltas[j] == 1,
            decreases n - i,
        {
            let cur = observed_mappings[i].1;
            let prev = observed_mappings[i - 1].1;
            let cur_signed: i32 = if cur < 0x8000 { cur as i32 } else { cur as i32 - 0x10000 };
            let prev_signed: i32 = if prev < 0x8000 { prev as i32 } else { prev as i32 - 0x10000 };
            let d: i32 = cur_signed - prev_signed;
            proof {
                assert(d == deltas[i - 1]);
                assert(fits_i16(delta_sum(deltas, i as int)));
            }
            sum = sum + d;
            if d != 1 {
                all_ones = false;
            }
            i = i + 1;
        }
        let count: i32 = (n - 1) as i32;
        let delta: i16 = if all_ones {
            1
        } else if sum >= 0 {
            (sum / count) as i16
        } else {
            (-((-sum) / count)) as i16
        };
        let mut ports_vec: Vec<u16> = Vec::new();
        let mut k: usize = 0;
        while k < n
            invariant
                n == observed_mappings@.len(),
                k <= n,
                ports_vec@ == public_ports(observed_mappings@).take(k as int),
            decreases n - k,
        {
            ports_vec.push(observed_mappings[k].1);
            proof {
                assert(ports_vec@ =~= public_ports(observed_mappings@).take(k as int + 1));
            }
            k = k + 1;
        }
        proof {
            assert(ports_vec@ =~= public_ports(observed_mappings@));
        }
        self.last_predicted_delta = Some(delta);
        self.observed_ports = ports_vec;
    }

    /// Predicts the peer's public port, with the random window of guesses
    /// given in the order it was shuffled into.
    pub fn predict_with_window(&self, peer_local_port: u16, peer_public_base: Option<u16>, shuffled: &[u16]) -> (p: PortPrediction)
        requires
            prediction_fits(self.spec_config(), self.spec_delta(), peer_public_base),
        ensures
            p.strategy == spec_prediction_strategy(self.spec_config(), self.spec_delta(), peer_public_base),
            p.predicted_ports@ == spec_predicted_ports(
                self.spec_config(),
                self.spec_delta(),
                peer_public_base,
                shuffled@,
            ),
            p.observed_delta == self.spec_delta(),
    {
        let ghost config = self.config;
        let k: usize = self.config.prediction_attempts / 3;
        let mut predictions: Vec<u16> = Vec::new();
        let mut strategy = PredictionStrategy::Combined;
        if self.config.enable_sequential_prediction {
            if let Some(base) = peer_public_base {
                let mut i: usize = 0;
                while i < k
                    invariant
                        i <= k,
                        k > 0 ==> base + k - 1 <= 0xFFFF,
                        predictions@ == sequential_ports(base, i as nat),
                    decreases k - i,
                {
                    predictions.push(base + i as u16);
                    proof {
                        assert(predictions@ =~= sequential_ports(base, i as nat + 1));
                    }
                    i = i + 1;
                }
                strategy = PredictionStrategy::Sequential;
            }
        }
        let ghost seq_part = predictions@;
        if self.config.enable_delta_prediction && self.last_predicted_delta.is_some() {
            if let Some(base) = peer_public_base {
                let delta = self.last_predicted_delta.unwrap();
                let base_signed: i32 = if base < 0x8000 { base as i32 } else { base as i32 - 0x10000 };
                let mut i: usize = 0;
                while i < k
                    invariant
                        i <= k,
                        delta_fits(base, delta, k as nat),
                        base_signed == as_signed(base),
                        predictions@ == seq_part + delta_ports(base, delta, i as nat),
                    decreases k - i,
                {
                    proof {
                        assert(fits_i16(delta * (i as int)));
                        assert(fits_i16(as_signed(base) + delta * (i as int)));
                    }
                    let step: i32 = (delta as i32) * (i as i32);
                    let v: i32 = base_signed + step;
                    let port: u16 = if v < 0 { (v + 0x10000) as u16 } else { v as u16 };
                    predictions.push(port);
                    proof {
                        assert(predictions@ =~= seq_part + delta_ports(base, delta, i as nat + 1));
                    }
                    i = i + 1;
                }
                strategy = PredictionStrategy::Delta;
            }
        }
        proof {
            assert(predictions@ =~= guided_ports(config, self.last_predicted_delta, peer_public_base));
        }
        if self.config.enable_random_prediction {
            let take: usize = self.config.prediction_attempts - predictions.len();
            let mut j: usize = 0;
            let ghost guided = predictions@;
            while j < take && j < shuffled.len()
                invariant
                    j <= take,
                    j <= shuffled@.len(),
                    predictions@ == guided + shuffled@.take(j as int),
                decreases shuffled@.len() - j,
            {
                predictions.push(shuffled[j]);
                proof {
                    assert(predictions@ =~= guided + shuffled@.take(j as int + 1));
                }
                j = j + 1;
            }
            if strategy == PredictionStrategy::Combined {
                strategy = PredictionStrategy::Random;
            }
        }
        let unique = dedup_ports(&predictions);
        PortPrediction { strategy, predicted_ports: unique, observed_delta: self.last_predicted_delta }
    }

    /// Predicts the peer's public port: sequential and delta guesses from
    /// the peer's public base port, then random guesses from a shuffled
    /// window around the base (or the peer's local port).
    pub fn predict_peer_port(&self, peer_local_port: u16, peer_public_base: Option<u16>) -> (p: PortPrediction)
        requires
            prediction_fits(self.spec_config(), self.spec_delta(), peer_public_base),
        ensures
            p.strategy == spec_prediction_strategy(self.spec_config(), self.spec_delta(), peer_public_base),
            p.observed_delta == self.spec_delta(),
            exists|shuffled: Seq<u16>|
                #![trigger spec_predicted_ports(self.spec_config(), self.spec_delta(), peer_public_base, shuffled)]
                shuffled.to_multiset() == window_ports(
                    match peer_public_base { Some(b) => b, None => peer_local_port },
                    self.spec_config().prediction_range,
                ).to_multiset() && p.predicted_ports@ == spec_predicted_ports(
                    self.spec_config(),
                    self.spec_delta(),
                    peer_public_base,
                    shuffled,
                ),
    {
        let base = match peer_public_base {
            Some(b) => b,
            None => peer_local_port,
        };
        let mut window = Self::window(base, self.config.prediction_range);
        shuffle_ports(&mut window);
        self.predict_with_window(peer_local_port, peer_public_base, window.as_slice())
    }

    /// The random window around `base`: `range / 2` ports either side, cut
    /// at the ends of the port space.
    pub fn window(base: u16, range: u16) -> (w: Vec<u16>)
        ensures
            w@ == window_ports(base, range),
    {
        let half = range / 2;
        let start: u16 = if base >= half { base - half } else { 0 };
        let end: u16 = if base as u32 + half as u32 <= 0xFFFF { base + half } else { 0xFFFF };
        let mut w: Vec<u16> = Vec::new();
        let mut p: u16 = start;
        while p < end
            invariant
                start <= p <= end || (start > end && p == start),
                start == window_start(base, range),
                end == window_end(base, range),
                w@ == Seq::new((p - start) as nat, |i: int| (start + i) as u16),
            decreases end - p,
        {
            w.push(p);
            proof {
                assert(w@ =~= Seq::new((p + 1 - start) as nat, |i: int| (start + i) as u16));
            }
            p = p + 1;
        }
        proof {
            assert(w@ =~= window_ports(base, range));
        }
        w
    }

    /// Whether the guided guesses for `peer_public_base` fit the port space
    /// and 16-bit signed arithmetic, as `predict_peer_port` needs.
    pub fn predictions_fit(&self, peer_public_base: Option<u16>) -> (b: bool)
        ensures
            b == prediction_fits(self.spec_config(), self.spec_delta(), peer_public_base),
    {
        let k: usize = self.config.prediction_attempts / 3;
        let base = match peer_public_base {
            Some(b) => b,
            None => {
                return true;
            },
        };
        if self.config.enable_sequential_prediction && k > 0 && (base as usize) + k - 1 > 0xFFFF {
            return false;
        }
        if !self.config.enable_delta_prediction {
            return true;
        }
        let delta = match self.last_predicted_delta {
            Some(d) => d,
            None => {
                return true;
            },
        };
        if k > 0x8000 {
            return false;
        }
        let sb: i32 = if base < 0x8000 { base as i32 } else { base as i32 - 0x10000 };
        let mut i: usize = 0;
        while i < k
            invariant
                i <= k <= 0x8000,
                k == self.config.prediction_attempts / 3,
                self.config.enable_delta_prediction,
                self.last_predicted_delta == Some(delta),
                peer_public_base == Some(base),
                !(self.config.enable_sequential_prediction && k > 0) || base + k - 1 <= 0xFFFF,
                sb == as_signed(base),
                forall|j: int| 0 <= j < i ==> fits_i16(#[trigger] (delta * j)) && fits_i16(as_signed(base) + delta * j),
            decreases k - i,
        {
            proof {
                assert(-0x4000_0000 <= (delta as int) * (i as int) <= 0x4000_0000) by (nonlinear_arith)
                    requires -0x8000 <= delta as int <= 0x7FFF, 0 <= i as int <= 0x8000;
            }
            let d: i32 = (delta as i32) * (i as i32);
            assert(d == delta * i);
            if d < -0x8000 || d > 0x7FFF || sb + d < -0x8000 || sb + d > 0x7FFF {
                proof {
                    assert(!(fits_i16(delta * (i as int)) && fits_i16(as_signed(base) + delta * (i as int))));
                    assert(!delta_fits(base, delta, k as nat));
                }
                return false;
            }
            i = i + 1;
        }
        true
    }

    /// Whether port prediction applies: only to a symmetric NAT.
    pub fn needs_birthday_punch(&self) -> (b: bool)
        ensures
            b == (self.spec_nat().nat_type == NatType::Symmetric),
    {
        self.nat_properties.nat_type == NatType::Symmetric
    }

    /// The configuration.
    pub fn config(&self) -> (c: BirthdayPunchConfig)
        ensures
            c == self.spec_config(),
    {
        self.config
    }
}

/// `ports` without repeats, first occurrences kept.
pub fn dedup_ports(ports: &Vec<u16>) -> (out: Vec<u16>)
    ensures
        out@ == dedup(ports@),
{
    let mut seen: HashSet<u16> = HashSet::new();
    let mut out: Vec<u16> = Vec::new();
    let mut i: usize = 0;
    while i < ports.len()
        invariant
            i <= ports@.len(),
            out@ == dedup(ports@.take(i as int)),
            forall|v: u16| seen@.contains(v) <==> out@.contains(v),
        decreases ports@.len() - i,
    {
        let p = ports[i];
        proof {
            assert(ports@.take(i as int + 1).drop_last() =~= ports@.take(i as int));
            assert(ports@.take(i as int + 1).last() == p);
        }
        if !seen.contains(&p) {
            let ghost old_out = out@;
            let ghost old_seen = seen@;
            seen.insert(p);
            out.push(p);
            proof {
                assert forall|v: u16| seen@.contains(v) <==> out@.contains(v) by {
                    if v == p {
                        assert(out@[out@.len() - 1] == p);
                    } else {
                        assert(seen@.contains(v) == old_seen.contains(v));
                        if out@.contains(v) {
                            let j = choose|j: int| 0 <= j < out@.len() && out@[j] == v;
                            assert(j < out@.len() - 1);
                            assert(old_out[j] == v);
                        }
                        if old_out.contains(v) {
                            let j = choose|j: int| 0 <= j < old_out.len() && old_out[j] == v;
                            assert(out@[j] == v);
                        }
                    }
                }
            }
        }
        i = i + 1;
    }
    proof {
        assert(ports@.take(ports@.len() as int) =~= ports@);
    }
    out
}

/// Every predicted port appears once.
pub proof fn lemma_dedup_no_duplicates(s: Seq<u16>)
    ensures
        dedup(s).no_duplicates(),
    decreases s.len(),
{
    if s.len() > 0 {
        lemma_dedup_no_duplicates(s.drop_last());
    }
}

proof fn lemma_delta_sum_telescopes(ports: Seq<u16>, n: int)
    requires
        1 <= ports.len(),
        0 <= n < ports.len(),
    ensures
        delta_sum(port_deltas(ports), n) == as_signed(ports[n]) - as_signed(ports[0]),
    decreases n,
{
    if n > 0 {
        lemma_delta_sum_telescopes(ports, n - 1);
    }
}

proof fn lemma_div_toward_zero_fits(a: int, b: int)
    requires
        fits_i16(a),
        b >= 1,
    ensures
        fits_i16(div_toward_zero(a, b)),
{
    if a >= 0 {
        assert(a / b <= a) by (nonlinear_arith)
            requires
                a >= 0,
                b >= 1,
        ;
        assert(a / b >= 0) by (nonlinear_arith)
            requires
                a >= 0,
                b >= 1,
        ;
    } else {
        let c = -a;
        assert(c / b <= c) by (nonlinear_arith)
            requires
                c >= 0,
                b >= 1,
        ;
        assert(c / b >= 0) by (nonlinear_arith)
            requires
                c >= 0,
                b >= 1,
        ;
    }
}

/// The learnt delta is the average step from the first public port to the
/// last: their difference (as 16-bit signed ports) divided by the number of
/// steps, rounded toward zero. It depends on the first and last ports and
/// the count alone, so every step counts; when every step is 1 it is 1.
pub proof fn lemma_learnt_delta_is_average(mappings: Seq<(u16, u16)>)
    requires
        mappings.len() >= 2,
        analyzable(mappings),
    ensures
        spec_learnt_delta(mappings) as int == div_toward_zero(
            as_signed(mappings[mappings.len() - 1].1) - as_signed(mappings[0].1),
            mappings.len() - 1,
        ),
{
    let ports = public_ports(mappings);
    let deltas = port_deltas(ports);
    let n = mappings.len() - 1;
    lemma_delta_sum_telescopes(ports, n);
    assert(deltas.len() == n);
    let total = as_signed(mappings[mappings.len() - 1].1) - as_signed(mappings[0].1);
    assert(delta_sum(deltas, n) == total);
    assert(fits_i16(delta_sum(deltas, n)));
    if forall|i: int| 0 <= i < deltas.len() ==> deltas[i] == 1 {
        assert forall|k: int| 0 <= k <= n implies #[trigger] delta_sum(deltas, k) == k by {
            lemma_sum_of_ones(deltas, k);
        }
        assert(total == n);
        assert(n / n == 1) by (nonlinear_arith)
            requires
                n >= 1,
        ;
    } else {
        lemma_div_toward_zero_fits(total, n);
    }
}

proof fn lemma_sum_of_ones(deltas: Seq<int>, k: int)
    requires
        0 <= k <= deltas.len(),
        forall|i: int| 0 <= i < deltas.len() ==> deltas[i] == 1,
    ensures
        delta_sum(deltas, k) == k,
    decreases k,
{
    if k > 0 {
        lemma_sum_of_ones(deltas, k - 1);
    }
}

} // verus!