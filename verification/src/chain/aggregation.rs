//! The slot's aggregation session: when it starts, how much it takes on, and which of its
//! messages still count.
use crate::chain::duties::{dutiful_proposer, duty_of, Tick, TickDuty};
use crate::chain::server::{AggregationSession, BlockChainConfig, BlockChainServer};
use crate::clock::{SlotInterval, MILLISECONDS_PER_INTERVAL, MILLISECONDS_PER_SLOT};
use std::collections::HashSet;
use vstd::prelude::*;

verus! {

broadcast use vstd::std_specs::hash::group_hash_axioms;

/// A session that has started.
#[derive(Clone, Copy, Debug, PartialEq, Eq, Structural)]
pub struct SessionStart {
    /// The slot that the session belongs to.
    pub session_id: u64,
    /// The moment before which nothing of it is published, in milliseconds since the epoch.
    pub publish_at_ms: u64,
    /// How long before that moment it started, if it did.
    pub lead_ms: Option<u64>,
}

/// When the aggregation interval of `slot` begins, in milliseconds since the epoch.
pub open spec fn aggregation_ms(config: &BlockChainConfig, slot: int) -> int {
    config.genesis_ms() + SlotInterval::Aggregation.start_ms(slot)
}

/// How many of the first `n` validators vote on the subnets of `subnets`, where validator `v`
/// votes on subnet `v % committees`.
pub open spec fn voters_on(subnets: Set<u64>, committees: int, n: nat) -> nat
    decreases n,
{
    if n == 0 {
        0
    } else {
        let before = voters_on(subnets, committees, (n - 1) as nat);
        if subnets.contains(((n - 1) % committees) as u64) {
            before + 1
        } else {
            before
        }
    }
}

/// Two thirds of `votes`, rounded up.
pub open spec fn two_thirds(votes: int) -> int {
    (2 * votes + 2) / 3
}

/// How many signatures of one vote start aggregation early; none if no vote can.
pub open spec fn early_threshold_of(config: &BlockChainConfig, num_validators: nat) -> int {
    if config.attestation_committee_count == 0 {
        0
    } else {
        two_thirds(
            voters_on(
                config.subscribed_subnets@,
                config.attestation_committee_count as int,
                num_validators,
            ) as int,
        )
    }
}

/// The slot whose aggregation may start early at `now_ms`, if there is one.
pub open spec fn early_slot(server: &BlockChainServer, is_aggregator: bool, now_ms: int) -> Option<
    u64,
> {
    let ms = now_ms - server.config.genesis_ms();
    let into_slot = ms % MILLISECONDS_PER_SLOT as int;
    let opens = 2 * MILLISECONDS_PER_INTERVAL - server.config.early_window_ms;
    let slot = (ms / MILLISECONDS_PER_SLOT as int) as u64;
    if !is_aggregator || ms < 0 || into_slot < opens || into_slot >= 2 * MILLISECONDS_PER_INTERVAL
        || server.has_session(slot) {
        None
    } else {
        Some(slot)
    }
}

/// How many jobs the session of `slot` takes on.
pub open spec fn job_limit(
    config: &BlockChainConfig,
    slot: int,
    num_validators: int,
    duties_allowed: bool,
) -> usize {
    if dutiful_proposer(config, slot + 1, num_validators, duties_allowed) is Some {
        1
    } else {
        config.max_aggregation_jobs
    }
}

/// The session of `slot` that starts at `now_ms`, if there is anything to aggregate, and what is
/// kept of it.
pub open spec fn session_opened(
    config: &BlockChainConfig,
    slot: u64,
    has_inputs: bool,
    now_ms: int,
) -> (Option<SessionStart>, Option<AggregationSession>) {
    let at = aggregation_ms(config, slot as int);
    if has_inputs {
        (
            Some(
                SessionStart {
                    session_id: slot,
                    publish_at_ms: at as u64,
                    lead_ms: if now_ms < at {
                        Some((at - now_ms) as u64)
                    } else {
                        None
                    },
                },
            ),
            Some(AggregationSession { session_id: slot, early: now_ms < at }),
        )
    } else {
        (None, None)
    }
}

/// Whether `group` signatures of one vote reach the threshold, where there is one.
pub open spec fn enough_votes(threshold: int, group: int) -> bool {
    threshold > 0 && group >= threshold
}

/// Whether `slot` is the one that the store's clock is in, at `store_time` intervals.
pub open spec fn is_store_slot(slot: int, store_time: int) -> bool {
    slot == store_time / crate::clock::INTERVALS_PER_SLOT as int
}

/// Whether `session` is that of `session_id` and had started early.
pub open spec fn started_early(session: Option<AggregationSession>, session_id: u64) -> bool {
    match session {
        Some(s) => s.session_id == session_id && s.early,
        None => false,
    }
}

proof fn lemma_no_voters(committees: int, n: nat)
    requires
        committees > 0,
    ensures
        voters_on(Set::empty(), committees, n) == 0,
    decreases n,
{
    if n > 0 {
        lemma_no_voters(committees, (n - 1) as nat);
    }
}

pub(crate) proof fn lemma_voters_bound(subnets: Set<u64>, committees: int, n: nat)
    requires
        committees > 0,
    ensures
        voters_on(subnets, committees, n) <= n,
    decreases n,
{
    if n > 0 {
        lemma_voters_bound(subnets, committees, (n - 1) as nat);
    }
}

proof fn lemma_voters_insert(subnets: Set<u64>, subnet: u64, committees: int, n: nat)
    requires
        0 < committees <= u64::MAX,
        !subnets.contains(subnet),
    ensures
        voters_on(subnets.insert(subnet), committees, n) == voters_on(subnets, committees, n)
            + committee_size(subnet as int, committees, n as int),
    decreases n,
{
    if n > 0 {
        lemma_voters_insert(subnets, subnet, committees, (n - 1) as nat);
        lemma_committee_size_step(subnet as int, committees, n - 1);
        let last = (n - 1) % committees;
        assert(0 <= last < committees) by {
            vstd::arithmetic::div_mod::lemma_mod_bound(n - 1, committees);
        }
    } else {
        assert(0int / committees == 0 && 0int % committees == 0) by {
            vstd::arithmetic::div_mod::lemma_small_mod(0, committees as nat);
            vstd::arithmetic::div_mod::lemma_div_basics(committees);
        }
    }
}

/// How many of `n` validators vote on `subnet`.
spec fn committee_size(subnet: int, committees: int, n: int) -> int {
    if subnet < committees {
        n / committees + (if subnet < n % committees {
            1int
        } else {
            0
        })
    } else {
        0
    }
}

proof fn lemma_committee_size_step(subnet: int, committees: int, n: int)
    requires
        committees > 0,
        n >= 0,
        subnet >= 0,
    ensures
        committee_size(subnet, committees, n + 1) == committee_size(subnet, committees, n) + (
        if subnet == n % committees {
            1int
        } else {
            0
        }),
{
    let q = n / committees;
    let r = n % committees;
    vstd::arithmetic::div_mod::lemma_fundamental_div_mod(n, committees);
    vstd::arithmetic::div_mod::lemma_mod_bound(n, committees);
    assert(committees * (q + 1) == committees * q + committees) by (nonlinear_arith);
    if r + 1 < committees {
        vstd::arithmetic::div_mod::lemma_fundamental_div_mod_converse(
            n + 1,
            committees,
            q,
            r + 1,
        );
    } else {
        vstd::arithmetic::div_mod::lemma_fundamental_div_mod_converse(
            n + 1,
            committees,
            q + 1,
            0,
        );
    }
}

/// How many of `num_validators` validators vote on the subnets of `subnets`.
fn expected_votes(subnets: &HashSet<u64>, committees: u64, num_validators: u64) -> (res: u64)
    requires
        committees > 0,
    ensures
        res == voters_on(subnets@, committees as int, num_validators as nat),
        res <= num_validators,
{
    let mut votes: u64 = 0;
    let ghost mut counted: Set<u64> = Set::empty();
    proof {
        lemma_no_voters(committees as int, num_validators as nat);
    }
    let it = subnets.iter();
    let ghost members = vstd::std_specs::iter::IteratorSpec::remaining(&it).unref();
    for subnet in iter: it
        invariant
            committees > 0,
            iter.seq().unref() == members,
            members.no_duplicates(),
            counted == members.take(iter.index() as int).to_set(),
            votes == voters_on(counted, committees as int, num_validators as nat),
    {
        let ghost i = iter.index() as int;
        proof {
            assert(members[i] == *subnet);
            assert(members.take(i + 1) =~= members.take(i).push(*subnet));
            assert(!counted.contains(*subnet)) by {
                if members.take(i).contains(*subnet) {
                    let j = members.take(i).index_of(*subnet);
                    assert(members[j] == members[i]);
                }
            }
            assert(members.take(i + 1).to_set() =~= counted.insert(*subnet)) by {
                assert forall|k: u64| counted.insert(*subnet).contains(k) implies members.take(
                    i + 1,
                ).contains(k) by {
                    if k == *subnet {
                        assert(members.take(i + 1)[i] == k);
                    } else {
                        let j = members.take(i).index_of(k);
                        assert(members.take(i + 1)[j] == k);
                    }
                }
            }
            lemma_voters_insert(counted, *subnet, committees as int, num_validators as nat);
            counted = counted.insert(*subnet);
            lemma_voters_bound(counted, committees as int, num_validators as nat);
        }
        if *subnet < committees {
            let extra: u64 = if *subnet < num_validators % committees {
                1
            } else {
                0
            };
            votes = votes + (num_validators / committees + extra);
        }
    }
    proof {
        assert(members.take(members.len() as int) =~= members);
        assert(counted =~= subnets@);
        lemma_voters_bound(counted, committees as int, num_validators as nat);
    }
    votes
}

impl BlockChainServer {
    /// Takes the current session out, to be cancelled and joined before a new one starts or
    /// when the server stops.
    pub fn retire_session(&mut self) -> (res: Option<AggregationSession>)
        ensures
            res == old(self).current_aggregation,
            final(self).current_aggregation is None,
            final(self).differs_in_session_only(old(self)),
    {
        let prior = self.current_aggregation;
        self.current_aggregation = None;
        prior
    }

    /// How many jobs the session of `slot` takes on: a single one if the next block is ours to
    /// build, so that there is time left to build it.
    pub fn session_job_limit(&self, slot: u64, num_validators: u64, duties_allowed: bool) -> (res:
        usize)
        requires
            num_validators > 0,
            slot < u64::MAX,
        ensures
            res == job_limit(&self.config, slot as int, num_validators as int, duties_allowed),
    {
        if self.proposer_on_duty(slot + 1, num_validators, duties_allowed).is_some() {
            1
        } else {
            self.config.max_aggregation_jobs
        }
    }

    /// Starts the session of `slot`, if there is anything to aggregate. Either way the session
    /// before it is over: without anything to aggregate there is none.
    pub fn start_aggregation_session(&mut self, slot: u64, has_inputs: bool, now_ms: u64) -> (res:
        Option<SessionStart>)
        requires
            old(self).config.wf(),
            aggregation_ms(&old(self).config, slot as int) <= u64::MAX,
        ensures
            final(self).differs_in_session_only(old(self)),
            (res, final(self).current_aggregation) == session_opened(
                &old(self).config,
                slot,
                has_inputs,
                now_ms as int,
            ),
    {
        if !has_inputs {
            self.current_aggregation = None;
            return None;
        }
        let genesis_time_ms: u64 = self.config.genesis_time * 1000;
        let t2_ms: u64 = genesis_time_ms + slot * MILLISECONDS_PER_SLOT + 2
            * MILLISECONDS_PER_INTERVAL;
        let early = now_ms < t2_ms;
        let lead_ms: Option<u64> = if early {
            Some(t2_ms - now_ms)
        } else {
            None
        };
        self.current_aggregation = Some(AggregationSession { session_id: slot, early });
        Some(SessionStart { session_id: slot, publish_at_ms: t2_ms, lead_ms })
    }

    /// The slot whose aggregation may start early now: inside the window that ends with the
    /// aggregation interval, unless the slot already had its session.
    pub fn early_aggregation_slot(&self, is_aggregator: bool, now_ms: u64) -> (res: Option<u64>)
        requires
            self.config.wf(),
        ensures
            res == early_slot(self, is_aggregator, now_ms as int),
    {
        if !is_aggregator {
            return None;
        }
        let genesis_time_ms: u64 = self.config.genesis_time * 1000;
        match now_ms.checked_sub(genesis_time_ms) {
            None => None,
            Some(ms_since_genesis) => {
                let ms_into_slot: u64 = ms_since_genesis % MILLISECONDS_PER_SLOT;
                let t2_offset: u64 = 2 * MILLISECONDS_PER_INTERVAL;
                if ms_into_slot < t2_offset - self.config.early_window_ms || ms_into_slot
                    >= t2_offset {
                    return None;
                }
                let slot: u64 = ms_since_genesis / MILLISECONDS_PER_SLOT;
                if self.session_is(slot) {
                    None
                } else {
                    Some(slot)
                }
            },
        }
    }

    /// How many signatures of one vote start aggregation early: two thirds, rounded up, of the
    /// validators that vote on the subscribed subnets; none if there are no such validators.
    pub fn early_threshold(&self, num_validators: u64) -> (res: u64)
        requires
            num_validators <= u64::MAX / 2,
        ensures
            res == early_threshold_of(&self.config, num_validators as nat),
    {
        let committees: u64 = self.config.attestation_committee_count;
        if committees == 0 {
            return 0;
        }
        let votes: u64 = expected_votes(
            &self.config.subscribed_subnets,
            committees,
            num_validators,
        );
        let twice: u64 = 2 * votes;
        if twice % 3 == 0 {
            twice / 3
        } else {
            twice / 3 + 1
        }
    }

    /// Whether `max_group` signatures of one vote are enough to start aggregation early.
    pub fn starts_early(&self, max_group: u64, num_validators: u64) -> (res: bool)
        requires
            num_validators <= u64::MAX / 2,
        ensures
            res == enough_votes(
                early_threshold_of(&self.config, num_validators as nat),
                max_group as int,
            ),
    {
        let min_group_sigs: u64 = self.early_threshold(num_validators);
        !(min_group_sigs == 0 || max_group < min_group_sigs)
    }

    /// Whether an attestation for `attestation_slot` calls for a look at early aggregation: only
    /// one for the store's own slot can bring a vote over the threshold.
    pub fn attestation_may_start_early(&self, attestation_slot: u64, store_time: u64) -> (res: bool)
        ensures
            res == is_store_slot(attestation_slot as int, store_time as int),
    {
        attestation_slot == store_time / crate::clock::INTERVALS_PER_SLOT
    }

    /// Whether an aggregate of session `session_id` still counts, and whether that session is
    /// the one to cancel when its deadline comes: only if it is the current one.
    pub fn is_current_session(&self, session_id: u64) -> (res: bool)
        ensures
            res == self.has_session(session_id),
    {
        self.session_is(session_id)
    }

    /// Whether the session `session_id` that reports its end is the current one and had started
    /// early.
    pub fn session_was_early(&self, session_id: u64) -> (res: bool)
        ensures
            res == started_early(self.current_aggregation, session_id),
    {
        match &self.current_aggregation {
            Some(session) => session.session_id == session_id && session.early,
            None => false,
        }
    }
}

/// A slot has one session at most: once it has started, neither the early trigger nor the
/// aggregation interval starts another.
pub proof fn law_one_session_per_slot(
    server: &BlockChainServer,
    slot: u64,
    is_aggregator: bool,
    now_ms: int,
    tick: Tick,
    duties_allowed: bool,
    num_validators: int,
)
    requires
        server.has_session(slot),
        tick.slot == slot,
    ensures
        early_slot(server, is_aggregator, now_ms) != Some(slot),
        duty_of(server, tick, is_aggregator, duties_allowed, num_validators)
            != TickDuty::Aggregate,
{
}

/// An early start lies before the aggregation interval of its slot, and by no more than the
/// window.
pub proof fn law_early_start_lies_in_the_window(
    server: &BlockChainServer,
    is_aggregator: bool,
    now_ms: int,
)
    requires
        server.config.wf(),
        0 <= now_ms <= u64::MAX,
    ensures
        early_slot(server, is_aggregator, now_ms) matches Some(slot) ==> {
            &&& is_aggregator
            &&& now_ms < aggregation_ms(&server.config, slot as int)
            &&& now_ms >= aggregation_ms(&server.config, slot as int)
                - server.config.early_window_ms
        },
{
    let ms = now_ms - server.config.genesis_ms();
    if ms >= 0 {
        assert(ms == 4000 * (ms / 4000) + ms % 4000);
    }
}

/// With every subnet subscribed the threshold is two thirds of all validators.
pub proof fn law_threshold_with_all_subnets(config: &BlockChainConfig, num_validators: nat)
    requires
        config.attestation_committee_count > 0,
        forall|s: u64|
            s < config.attestation_committee_count ==> config.subscribed_subnets@.contains(s),
    ensures
        early_threshold_of(config, num_validators) == two_thirds(num_validators as int),
{
    lemma_all_voters(
        config.subscribed_subnets@,
        config.attestation_committee_count as int,
        num_validators,
    );
}

proof fn lemma_all_voters(subnets: Set<u64>, committees: int, n: nat)
    requires
        0 < committees <= u64::MAX,
        forall|s: u64| s < committees ==> subnets.contains(s),
    ensures
        voters_on(subnets, committees, n) == n,
    decreases n,
{
    if n > 0 {
        lemma_all_voters(subnets, committees, (n - 1) as nat);
        vstd::arithmetic::div_mod::lemma_mod_bound(n - 1, committees);
    }
}

} // verus!
