//! The ICE agent: candidate pairing and the bookkeeping of connectivity
//! checks. Sending the checks is left to the caller, which hands back each
//! outcome.

use vstd::prelude::*;
use crate::common::net::SocketAddr;
use crate::common::text::{decimal, with_decimal_suffix};
use crate::common::entropy::{random_u32, random_u64};
use crate::common::time::{Duration, Instant};
use crate::omnilink::candidate::{CandidatePair, CheckState, IceCandidate, spec_pair_priority};
use crate::omnilink::nat_detection::NatProperties;
use crate::omnilink::stun::StunError;

verus! {

/// The progress of an ICE agent.
#[derive(Debug, Clone, Copy, PartialEq, Eq, Structural)]
pub enum IceState {
    New,
    Gathering,
    GatheringComplete,
    Connecting,
    Connected,
    Completed,
    Failed,
    Disconnected,
    Closed,
}

/// A TURN server and its credentials.
#[derive(Debug, Clone)]
pub struct TurnServer {
    pub address: SocketAddr,
    pub username: String,
    pub password: String,
    pub realm: Option<String>,
}

/// How an ICE agent gathers and checks candidates.
#[derive(Debug, Clone)]
pub struct IceConfig {
    pub stun_servers: Vec<SocketAddr>,
    pub turn_servers: Vec<TurnServer>,
    pub ice_controlling: bool,
    pub ice_ufrag: String,
    pub ice_pwd: String,
    pub gathering_timeout: Duration,
    pub check_timeout: Duration,
}

impl Default for IceConfig {
    /// No servers, controlling, random credentials, five seconds to gather
    /// and half a second per check.
    fn default() -> (c: IceConfig)
        ensures
            c.stun_servers@.len() == 0,
            c.turn_servers@.len() == 0,
            c.ice_controlling,
            exists|n: u32| c.ice_ufrag@ == "fastlink-"@ + decimal(n as nat),
            exists|n: u64| c.ice_pwd@ == "fastlink-"@ + decimal(n as nat),
            c.gathering_timeout@ == 5_000_000_000,
            c.check_timeout@ == 500_000_000,
    {
        let u = random_u32();
        let p = random_u64();
        let ice_ufrag = with_decimal_suffix("fastlink-", u as u64);
        let ice_pwd = with_decimal_suffix("fastlink-", p);
        assert(ice_ufrag@ == "fastlink-"@ + decimal(u as nat));
        IceConfig {
            stun_servers: Vec::new(),
            turn_servers: Vec::new(),
            ice_controlling: true,
            ice_ufrag,
            ice_pwd,
            gathering_timeout: Duration::from_secs(5),
            check_timeout: Duration::from_millis(500),
        }
    }
}

/// The outcome of one connectivity check.
#[derive(Debug, Clone)]
pub struct ConnectivityCheckResult {
    pub candidate_pair: CandidatePair,
    pub succeeded: bool,
    pub rtt: Option<Duration>,
}

/// A finished check, kept by the pair's two addresses.
#[derive(Debug, Clone, Copy)]
pub struct CheckRecord {
    pub local: SocketAddr,
    pub remote: SocketAddr,
    pub succeeded: bool,
    pub rtt: Option<Duration>,
    pub timestamp: Instant,
}

/// Why ICE failed.
#[derive(Debug)]
pub enum IceError {
    Io(std::io::Error),
    Stun(StunError),
    ConnectivityCheckTimeout,
    NoWorkingCandidate,
}

/// `m` is the position of the pair to check next: none ranks higher, and
/// it ranks above every pair ahead of it.
pub open spec fn is_best_pair(pairs: Seq<CandidatePair>, m: int) -> bool {
    &&& 0 <= m < pairs.len()
    &&& forall|k: int| 0 <= k < pairs.len() ==> spec_pair_priority(#[trigger] pairs[k].local, pairs[k].remote)
        <= spec_pair_priority(pairs[m].local, pairs[m].remote)
    &&& forall|k: int| 0 <= k < m ==> spec_pair_priority(#[trigger] pairs[k].local, pairs[k].remote)
        < spec_pair_priority(pairs[m].local, pairs[m].remote)
}

/// Whether two pairs join the same candidates.
pub open spec fn same_pair(a: CandidatePair, b: CandidatePair) -> bool {
    a.local.address == b.local.address && a.local.component == b.local.component
        && a.remote.address == b.remote.address && a.remote.component == b.remote.component
}

/// Some waiting pair joins `local` and `remote`.
pub open spec fn has_pair_for(pairs: Seq<CandidatePair>, local: IceCandidate, remote: IceCandidate) -> bool {
    exists|k: int| 0 <= k < pairs.len() && same_pair(#[trigger] pairs[k], CandidatePair::spec_new(local, remote))
}

/// Every local candidate is paired with every remote one.
pub open spec fn pairs_cover(pairs: Seq<CandidatePair>, locals: Seq<IceCandidate>, remotes: Seq<IceCandidate>) -> bool {
    forall|a: int, b: int|
        0 <= a < locals.len() && 0 <= b < remotes.len() ==> has_pair_for(pairs, #[trigger] locals[a], #[trigger] remotes[b])
}

/// Adding pairs keeps every pair already there.
pub proof fn lemma_has_pair_grows(before: Seq<CandidatePair>, after: Seq<CandidatePair>, local: IceCandidate, remote: IceCandidate)
    requires
        before.is_prefix_of(after),
        has_pair_for(before, local, remote),
    ensures
        has_pair_for(after, local, remote),
{
    let k = choose|k: int| 0 <= k < before.len() && same_pair(#[trigger] before[k], CandidatePair::spec_new(local, remote));
    assert(after[k] == before[k]);
}

/// An ICE agent.
pub struct IceAgent {
    state: IceState,
    config: IceConfig,
    local_candidates: Vec<IceCandidate>,
    remote_candidates: Vec<IceCandidate>,
    candidate_pairs: Vec<CandidatePair>,
    checked_pairs: Vec<CheckRecord>,
    selected_pair: Option<CandidatePair>,
    nat_properties: Option<NatProperties>,
}

impl IceAgent {
    /// The state.
    pub closed spec fn spec_state(&self) -> IceState {
        self.state
    }

    /// The configuration.
    pub closed spec fn spec_config(&self) -> IceConfig {
        self.config
    }

    /// The local candidates, in the order they were added.
    pub closed spec fn spec_local(&self) -> Seq<IceCandidate> {
        self.local_candidates@
    }

    /// The remote candidates, in the order they were added.
    pub closed spec fn spec_remote(&self) -> Seq<IceCandidate> {
        self.remote_candidates@
    }

    /// The pairs waiting to be checked.
    pub closed spec fn spec_pairs(&self) -> Seq<CandidatePair> {
        self.candidate_pairs@
    }

    /// The failed checks, one per pair of addresses.
    pub closed spec fn spec_checked(&self) -> Seq<CheckRecord> {
        self.checked_pairs@
    }

    /// The pair that connected.
    pub closed spec fn spec_selected(&self) -> Option<CandidatePair> {
        self.selected_pair
    }

    /// A new agent with no candidates.
    pub fn new(config: IceConfig) -> (a: IceAgent)
        ensures
            a.spec_state() == IceState::New,
            a.spec_config() == config,
            a.spec_local().len() == 0,
            a.spec_remote().len() == 0,
            a.spec_pairs().len() == 0,
            a.spec_checked().len() == 0,
            a.spec_selected() is None,
    {
        IceAgent {
            state: IceState::New,
            config,
            local_candidates: Vec::new(),
            remote_candidates: Vec::new(),
            candidate_pairs: Vec::new(),
            checked_pairs: Vec::new(),
            selected_pair: None,
            nat_properties: None,
        }
    }

    /// The state.
    pub fn state(&self) -> (s: IceState)
        ensures
            s == self.spec_state(),
    {
        self.state
    }

    /// The configuration.
    pub fn config(&self) -> (c: &IceConfig)
        ensures
            *c == self.spec_config(),
    {
        &self.config
    }

    /// The local candidates.
    pub fn local_candidates(&self) -> (c: &[IceCandidate])
        ensures
            c@ == self.spec_local(),
    {
        self.local_candidates.as_slice()
    }

    /// The remote candidates.
    pub fn remote_candidates(&self) -> (c: &[IceCandidate])
        ensures
            c@ == self.spec_remote(),
    {
        self.remote_candidates.as_slice()
    }

    /// The pairs waiting to be checked.
    pub fn candidate_pairs(&self) -> (p: &[CandidatePair])
        ensures
            p@ == self.spec_pairs(),
    {
        self.candidate_pairs.as_slice()
    }

    /// Whether `pair` is already waiting.
    fn has_pair(&self, pair: &CandidatePair) -> (b: bool)
        ensures
            b == exists|k: int| 0 <= k < self.spec_pairs().len() && same_pair(#[trigger] self.spec_pairs()[k], *pair),
    {
        let mut i: usize = 0;
        while i < self.candidate_pairs.len()
            invariant
                i <= self.candidate_pairs@.len(),
                forall|k: int| 0 <= k < i ==> !same_pair(#[trigger] self.candidate_pairs@[k], *pair),
            decreases self.candidate_pairs@.len() - i,
        {
            if self.candidate_pairs[i].same_pair(pair) {
                assert(same_pair(self.spec_pairs()[i as int], *pair));
                return true;
            }
            i = i + 1;
        }
        false
    }

    /// Pairs every local candidate with every remote one, skipping pairs
    /// already waiting.
    fn update_candidate_pairs(&mut self)
        ensures
            final(self).spec_state() == old(self).spec_state(),
            final(self).spec_config() == old(self).spec_config(),
            final(self).spec_local() == old(self).spec_local(),
            final(self).spec_remote() == old(self).spec_remote(),
            final(self).spec_checked() == old(self).spec_checked(),
            final(self).spec_selected() == old(self).spec_selected(),
            old(self).spec_pairs().is_prefix_of(final(self).spec_pairs()),
            pairs_cover(final(self).spec_pairs(), final(self).spec_local(), final(self).spec_remote()),
    {
        let nl = self.local_candidates.len();
        let nr = self.remote_candidates.len();
        let mut i: usize = 0;
        while i < nl
            invariant
                nl == self.local_candidates@.len(),
                nr == self.remote_candidates@.len(),
                i <= nl,
                self.state == old(self).state,
                self.config == old(self).config,
                self.local_candidates@ == old(self).local_candidates@,
                self.remote_candidates@ == old(self).remote_candidates@,
                self.checked_pairs@ == old(self).checked_pairs@,
                self.selected_pair == old(self).selected_pair,
                old(self).candidate_pairs@.is_prefix_of(self.candidate_pairs@),
                forall|a: int, b: int|
                    0 <= a < i && 0 <= b < nr ==> has_pair_for(
                        self.candidate_pairs@,
                        #[trigger] self.local_candidates@[a],
                        #[trigger] self.remote_candidates@[b],
                    ),
            decreases nl - i,
        {
            let mut j: usize = 0;
            while j < nr
                invariant
                    nl == self.local_candidates@.len(),
                    nr == self.remote_candidates@.len(),
                    i < nl,
                    j <= nr,
                    self.state == old(self).state,
                    self.config == old(self).config,
                    self.local_candidates@ == old(self).local_candidates@,
                    self.remote_candidates@ == old(self).remote_candidates@,
                    self.checked_pairs@ == old(self).checked_pairs@,
                    self.selected_pair == old(self).selected_pair,
                    old(self).candidate_pairs@.is_prefix_of(self.candidate_pairs@),
                    forall|a: int, b: int|
                        ((0 <= a < i && 0 <= b < nr) || (a == i && 0 <= b < j)) ==> has_pair_for(
                            self.candidate_pairs@,
                            #[trigger] self.local_candidates@[a],
                            #[trigger] self.remote_candidates@[b],
                        ),
                decreases nr - j,
            {
                let pair = CandidatePair::new(self.local_candidates[i].clone(), self.remote_candidates[j].clone());
                let ghost before = self.candidate_pairs@;
                if !self.has_pair(&pair) {
                    self.candidate_pairs.push(pair);
                    proof {
                        assert forall|a: int, b: int|
                            ((0 <= a < i && 0 <= b < nr) || (a == i && 0 <= b < j)) implies has_pair_for(
                                self.candidate_pairs@,
                                #[trigger] self.local_candidates@[a],
                                #[trigger] self.remote_candidates@[b],
                            ) by {
                            lemma_has_pair_grows(before, self.candidate_pairs@, self.local_candidates@[a], self.remote_candidates@[b]);
                        }
                        let last = self.candidate_pairs@.len() - 1;
                        assert(same_pair(
                            self.candidate_pairs@[last],
                            CandidatePair::spec_new(self.local_candidates@[i as int], self.remote_candidates@[j as int]),
                        ));
                        assert(old(self).candidate_pairs@.is_prefix_of(self.candidate_pairs@));
                    }
                } else {
                    assert(has_pair_for(self.candidate_pairs@, self.local_candidates@[i as int], self.remote_candidates@[j as int]));
                }
                j = j + 1;
            }
            i = i + 1;
        }
    }

    /// Adds a local candidate and pairs it with the remote ones.
    pub fn add_local_candidate(&mut self, candidate: IceCandidate)
        ensures
            final(self).spec_local() == old(self).spec_local().push(candidate),
            final(self).spec_remote() == old(self).spec_remote(),
            final(self).spec_state() == old(self).spec_state(),
            old(self).spec_pairs().is_prefix_of(final(self).spec_pairs()),
            pairs_cover(final(self).spec_pairs(), final(self).spec_local(), final(self).spec_remote()),
    {
        self.local_candidates.push(candidate);
        self.update_candidate_pairs();
    }

    /// Adds remote candidates and pairs them with the local ones.
    pub fn add_remote_candidates(&mut self, candidates: Vec<IceCandidate>)
        ensures
            final(self).spec_remote() == old(self).spec_remote() + candidates@,
            final(self).spec_local() == old(self).spec_local(),
            final(self).spec_state() == old(self).spec_state(),
            old(self).spec_pairs().is_prefix_of(final(self).spec_pairs()),
            pairs_cover(final(self).spec_pairs(), final(self).spec_local(), final(self).spec_remote()),
    {
        let mut candidates = candidates;
        self.remote_candidates.append(&mut candidates);
        self.update_candidate_pairs();
    }

    /// Marks the start of candidate gathering.
    pub fn begin_gathering(&mut self)
        ensures
            final(self).spec_state() == IceState::Gathering,
            final(self).spec_local() == old(self).spec_local(),
            final(self).spec_pairs() == old(self).spec_pairs(),
    {
        self.state = IceState::Gathering;
    }

    /// Marks the end of candidate gathering.
    pub fn finish_gathering(&mut self)
        ensures
            final(self).spec_state() == IceState::GatheringComplete,
            final(self).spec_local() == old(self).spec_local(),
            final(self).spec_pairs() == old(self).spec_pairs(),
    {
        self.state = IceState::GatheringComplete;
    }

    /// Marks the start of connectivity checks.
    pub fn begin_checks(&mut self)
        ensures
            final(self).spec_state() == IceState::Connecting,
            final(self).spec_pairs() == old(self).spec_pairs(),
    {
        self.state = IceState::Connecting;
    }

    /// The position of the highest-ranked waiting pair.
    fn best_pair_index(&self) -> (m: usize)
        requires
            self.spec_pairs().len() > 0,
        ensures
            is_best_pair(self.spec_pairs(), m as int),
    {
        let mut best: usize = 0;
        let mut best_priority = self.candidate_pairs[0].wide_priority();
        let mut i: usize = 1;
        while i < self.candidate_pairs.len()
            invariant
                1 <= i <= self.candidate_pairs@.len(),
                best < i,
                best_priority == spec_pair_priority(
                    self.candidate_pairs@[best as int].local,
                    self.candidate_pairs@[best as int].remote,
                ),
                forall|k: int| 0 <= k < i ==> spec_pair_priority(#[trigger] self.candidate_pairs@[k].local, self.candidate_pairs@[k].remote)
                    <= best_priority,
                forall|k: int| 0 <= k < best ==> spec_pair_priority(#[trigger] self.candidate_pairs@[k].local, self.candidate_pairs@[k].remote)
                    < best_priority,
            decreases self.candidate_pairs@.len() - i,
        {
            let p = self.candidate_pairs[i].wide_priority();
            if p > best_priority {
                best = i;
                best_priority = p;
            }
            i = i + 1;
        }
        best
    }

    /// The next step of the connectivity checks after `elapsed` of checking:
    /// `ConnectivityCheckTimeout` after ten check timeouts and
    /// `NoWorkingCandidate` when no pair is left (both leave the agent
    /// failed); otherwise the highest-ranked pair is taken, and handed back
    /// to check unless it is neither frozen nor waiting.
    pub fn next_check(&mut self, elapsed: Duration) -> (r: Result<Option<CandidatePair>, IceError>)
        requires
            old(self).spec_config().check_timeout@ * 10 <= crate::common::time::DURATION_MAX_NANOS,
        ensures
            final(self).spec_config() == old(self).spec_config(),
            elapsed@ > old(self).spec_config().check_timeout@ * 10 ==> {
                &&& r matches Err(IceError::ConnectivityCheckTimeout)
                &&& final(self).spec_state() == IceState::Failed
                &&& final(self).spec_pairs() == old(self).spec_pairs()
            },
            elapsed@ <= old(self).spec_config().check_timeout@ * 10 && old(self).spec_pairs().len() == 0 ==> {
                &&& r matches Err(IceError::NoWorkingCandidate)
                &&& final(self).spec_state() == IceState::Failed
                &&& final(self).spec_pairs() == old(self).spec_pairs()
            },
            elapsed@ <= old(self).spec_config().check_timeout@ * 10 && old(self).spec_pairs().len() > 0
                ==> exists|m: int|
                #![trigger is_best_pair(old(self).spec_pairs(), m)]
                is_best_pair(old(self).spec_pairs(), m) && final(self).spec_pairs() == old(
                    self,
                ).spec_pairs().remove(m) && final(self).spec_state() == old(self).spec_state()
                    && (if old(self).spec_pairs()[m].state == CheckState::Frozen || old(
                    self,
                ).spec_pairs()[m].state == CheckState::Waiting {
                    r == Ok::<Option<CandidatePair>, IceError>(Some(old(self).spec_pairs()[m]))
                } else {
                    r == Ok::<Option<CandidatePair>, IceError>(None)
                }),
    {
        let limit = match self.config.check_timeout.checked_mul(10) {
            Some(l) => l,
            None => {
                return Err(IceError::ConnectivityCheckTimeout);
            },
        };
        if limit.lt(&elapsed) {
            self.state = IceState::Failed;
            return Err(IceError::ConnectivityCheckTimeout);
        }
        if self.candidate_pairs.len() == 0 {
            self.state = IceState::Failed;
            return Err(IceError::NoWorkingCandidate);
        }
        let m = self.best_pair_index();
        let pair = self.candidate_pairs.remove(m);
        if pair.state != CheckState::Frozen && pair.state != CheckState::Waiting {
            return Ok(None);
        }
        Ok(Some(pair))
    }

    /// Records the outcome of checking `pair` at time `now`: a success
    /// selects the pair and connects the agent; a failure is kept by the
    /// pair's addresses (replacing an earlier record for them). Whether the
    /// agent is now connected.
    pub fn record_check(&mut self, pair: CandidatePair, result: &ConnectivityCheckResult, now: Instant) -> (connected: bool)
        ensures
            connected == result.succeeded,
            final(self).spec_pairs() == old(self).spec_pairs(),
            final(self).spec_config() == old(self).spec_config(),
            result.succeeded ==> {
                &&& final(self).spec_state() == IceState::Connected
                &&& final(self).spec_selected() == Some(CandidatePair { state: CheckState::Succeeded, ..pair })
                &&& final(self).spec_checked() == old(self).spec_checked()
            },
            !result.succeeded ==> {
                &&& final(self).spec_state() == old(self).spec_state()
                &&& final(self).spec_selected() == old(self).spec_selected()
                &&& final(self).spec_checked() == old(self).spec_checked().filter(
                    |c: CheckRecord| !(c.local == pair.local.address && c.remote == pair.remote.address),
                ).push(
                    CheckRecord {
                        local: pair.local.address,
                        remote: pair.remote.address,
                        succeeded: false,
                        rtt: result.rtt,
                        timestamp: now,
                    },
                )
            },
    {
        let mut pair = pair;
        if result.succeeded {
            pair.state = CheckState::Succeeded;
            self.selected_pair = Some(pair);
            self.state = IceState::Connected;
            return true;
        }
        let local = pair.local.address;
        let remote = pair.remote.address;
        let ghost keep = |c: CheckRecord| !(c.local == local && c.remote == remote);
        let mut kept: Vec<CheckRecord> = Vec::new();
        let mut i: usize = 0;
        while i < self.checked_pairs.len()
            invariant
                i <= self.checked_pairs@.len(),
                self.checked_pairs@ == old(self).checked_pairs@,
                keep == (|c: CheckRecord| !(c.local == local && c.remote == remote)),
                kept@ == self.checked_pairs@.take(i as int).filter(keep),
            decreases self.checked_pairs@.len() - i,
        {
            let c = self.checked_pairs[i];
            proof {
                assert(self.checked_pairs@.take(i as int + 1).drop_last() =~= self.checked_pairs@.take(i as int));
                reveal(Seq::filter);
            }
            if !(c.local == local && c.remote == remote) {
                kept.push(c);
            }
            i = i + 1;
        }
        proof {
            assert(self.checked_pairs@.take(self.checked_pairs@.len() as int) =~= self.checked_pairs@);
        }
        kept.push(CheckRecord { local, remote, succeeded: false, rtt: result.rtt, timestamp: now });
        self.checked_pairs = kept;
        false
    }

    /// The pair that connected.
    pub fn selected_pair(&self) -> (p: Option<&CandidatePair>)
        ensures
            match p {
                Some(q) => self.spec_selected() == Some(*q),
                None => self.spec_selected() is None,
            },
    {
        match &self.selected_pair {
            Some(p) => Some(p),
            None => None,
        }
    }

    /// Closes the agent.
    pub fn close(&mut self)
        ensures
            final(self).spec_state() == IceState::Closed,
    {
        self.state = IceState::Closed;
    }
}

} // verus!
