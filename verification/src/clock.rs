//! Slots and intervals: the node's clock, counted from genesis.
use vstd::prelude::*;

verus! {

/// Milliseconds per interval.
pub const MILLISECONDS_PER_INTERVAL: u64 = 800;

/// Number of intervals per slot.
pub const INTERVALS_PER_SLOT: u64 = 5;

/// Milliseconds in a slot.
pub const MILLISECONDS_PER_SLOT: u64 = 4000;

/// Future-slot tolerance for gossip, in intervals: how far a vote or a block may run ahead of
/// the local clock and still be admitted.
pub const GOSSIP_DISPARITY_INTERVALS: u64 = 1;

/// The five phases of a slot.
#[derive(Clone, Copy, Debug, PartialEq, Eq, Structural)]
pub enum SlotInterval {
    /// The slot's block is due.
    BlockPublication,
    /// Validators attest.
    AttestationProduction,
    /// Aggregators merge committee signatures.
    Aggregation,
    /// The safe target moves.
    SafeTargetUpdate,
    /// New votes are promoted, and the next slot's block is built.
    EndOfSlot,
}

/// The phase that stands at place `n` of a slot.
pub open spec fn interval_at(n: int) -> SlotInterval {
    if n == 0 {
        SlotInterval::BlockPublication
    } else if n == 1 {
        SlotInterval::AttestationProduction
    } else if n == 2 {
        SlotInterval::Aggregation
    } else if n == 3 {
        SlotInterval::SafeTargetUpdate
    } else {
        SlotInterval::EndOfSlot
    }
}

/// The slot that is running `ms` milliseconds after genesis.
pub open spec fn slot_of_ms(ms: int) -> int {
    ms / MILLISECONDS_PER_SLOT as int
}

/// The phase that is running `ms` milliseconds after genesis.
pub open spec fn interval_of_ms(ms: int) -> SlotInterval {
    interval_at((ms / MILLISECONDS_PER_INTERVAL as int) % INTERVALS_PER_SLOT as int)
}

/// The milliseconds that have passed since genesis; none before it.
pub open spec fn since_genesis(now_ms: int, genesis_ms: int) -> int {
    if now_ms >= genesis_ms {
        now_ms - genesis_ms
    } else {
        0
    }
}

impl SlotInterval {
    /// The phase's place in its slot, counted from 0.
    pub open spec fn place(self) -> int {
        match self {
            SlotInterval::BlockPublication => 0,
            SlotInterval::AttestationProduction => 1,
            SlotInterval::Aggregation => 2,
            SlotInterval::SafeTargetUpdate => 3,
            SlotInterval::EndOfSlot => 4,
        }
    }

    /// When the phase starts in `slot`, in milliseconds since genesis.
    pub open spec fn start_ms(self, slot: int) -> int {
        slot * MILLISECONDS_PER_SLOT + self.place() * MILLISECONDS_PER_INTERVAL
    }

    /// The phase that is running `ms_since_genesis` milliseconds after genesis.
    pub fn from_ms_since_genesis(ms_since_genesis: u64) -> (res: SlotInterval)
        ensures
            res == interval_of_ms(ms_since_genesis as int),
    {
        SlotInterval::from_intervals_since_genesis(ms_since_genesis / MILLISECONDS_PER_INTERVAL)
    }

    /// The phase that is running once `intervals_since_genesis` whole intervals have passed.
    pub fn from_intervals_since_genesis(intervals_since_genesis: u64) -> (res: SlotInterval)
        ensures
            res == interval_at(intervals_since_genesis as int % INTERVALS_PER_SLOT as int),
    {
        let place: u64 = intervals_since_genesis % INTERVALS_PER_SLOT;
        if place == 0 {
            SlotInterval::BlockPublication
        } else if place == 1 {
            SlotInterval::AttestationProduction
        } else if place == 2 {
            SlotInterval::Aggregation
        } else if place == 3 {
            SlotInterval::SafeTargetUpdate
        } else {
            SlotInterval::EndOfSlot
        }
    }

    /// Milliseconds from genesis to the start of this phase in `slot`.
    pub fn to_ms_since_genesis(self, slot: u64) -> (res: u64)
        requires
            self.start_ms(slot as int) <= u64::MAX,
        ensures
            res == self.start_ms(slot as int),
    {
        let place: u64 = match self {
            SlotInterval::BlockPublication => 0,
            SlotInterval::AttestationProduction => 1,
            SlotInterval::Aggregation => 2,
            SlotInterval::SafeTargetUpdate => 3,
            SlotInterval::EndOfSlot => 4,
        };
        slot * MILLISECONDS_PER_SLOT + place * MILLISECONDS_PER_INTERVAL
    }
}

/// How long the clock must run from `now_ms` to the next interval boundary.
pub open spec fn boundary_distance(now_ms: int, genesis_ms: int) -> int {
    if now_ms < genesis_ms {
        genesis_ms - now_ms
    } else {
        MILLISECONDS_PER_INTERVAL - (now_ms - genesis_ms) % MILLISECONDS_PER_INTERVAL as int
    }
}

/// Milliseconds until the next interval boundary, measured relative to genesis. Before genesis
/// the next boundary is genesis itself.
pub fn ms_until_next_interval(now_ms: u64, genesis_time_ms: u64) -> (res: u64)
    ensures
        res == boundary_distance(now_ms as int, genesis_time_ms as int),
{
    match now_ms.checked_sub(genesis_time_ms) {
        None => genesis_time_ms - now_ms,
        Some(ms_since_genesis) => MILLISECONDS_PER_INTERVAL - (ms_since_genesis
            % MILLISECONDS_PER_INTERVAL),
    }
}

/// Genesis in milliseconds, from genesis in seconds.
pub fn genesis_ms(genesis_time: u64) -> (res: u64)
    requires
        genesis_time * 1000 <= u64::MAX,
    ensures
        res == genesis_time * 1000,
{
    genesis_time * 1000
}

/// The slot that is running at `now_ms`; the first one before genesis.
pub fn wall_clock_slot(now_ms: u64, genesis_time: u64) -> (res: u64)
    requires
        genesis_time * 1000 <= u64::MAX,
    ensures
        res == slot_of_ms(since_genesis(now_ms as int, genesis_time * 1000)),
{
    now_ms.saturating_sub(genesis_time * 1000) / MILLISECONDS_PER_SLOT
}

/// The slot as a key's slot counter holds it: its low 32 bits.
pub open spec fn key_slot(slot: int) -> int {
    slot % 0x1_0000_0000
}

/// The slot that signing keys are brought up to at startup: the running slot, in the low 32 bits
/// that a key's slot counter holds.
pub fn startup_key_slot(now_ms: u64, genesis_time: u64) -> (res: u32)
    requires
        genesis_time * 1000 <= u64::MAX,
    ensures
        res == key_slot(slot_of_ms(since_genesis(now_ms as int, genesis_time * 1000))),
{
    low_32_bits(wall_clock_slot(now_ms, genesis_time))
}

/// The low 32 bits of `value`.
pub fn low_32_bits(value: u64) -> (res: u32)
    ensures
        res == key_slot(value as int),
{
    (value % 0x1_0000_0000) as u32
}

/// How long to wait at `finished_ms` before the next tick, after a tick that began at
/// `entered_ms`: no time at all if the tick ran past the boundary that followed its start, so
/// that the interval it overran still gets its duties.
pub open spec fn tick_delay(entered_ms: int, finished_ms: int, genesis_ms: int) -> int {
    if since_genesis(finished_ms, entered_ms) >= boundary_distance(entered_ms, genesis_ms) {
        0
    } else {
        boundary_distance(finished_ms, genesis_ms)
    }
}

/// Milliseconds to wait before the next tick.
pub fn next_tick_delay(entered_ms: u64, finished_ms: u64, genesis_time_ms: u64) -> (res: u64)
    ensures
        res == tick_delay(entered_ms as int, finished_ms as int, genesis_time_ms as int),
{
    let remaining_at_entry: u64 = ms_until_next_interval(entered_ms, genesis_time_ms);
    let elapsed: u64 = finished_ms.saturating_sub(entered_ms);
    if elapsed >= remaining_at_entry {
        0
    } else {
        ms_until_next_interval(finished_ms, genesis_time_ms)
    }
}

/// The milliseconds from `now_ms` to genesis at `genesis_time` seconds; none once it has passed.
pub open spec fn until_genesis(now_ms: int, genesis_time: int) -> int {
    if now_ms < genesis_time * 1000 {
        genesis_time * 1000 - now_ms
    } else {
        0
    }
}

/// Milliseconds from `now_ms` to genesis, and none once genesis has passed.
pub fn ms_until_genesis(now_ms: u64, genesis_time: u64) -> (res: u64)
    requires
        genesis_time * 1000 <= u64::MAX,
    ensures
        res == until_genesis(now_ms as int, genesis_time as int),
{
    (genesis_time * 1000).saturating_sub(now_ms)
}

/// The start of a phase lies in that phase, and in its slot.
pub proof fn law_start_lies_in_its_phase(interval: SlotInterval, slot: int)
    requires
        slot >= 0,
    ensures
        interval_of_ms(interval.start_ms(slot)) == interval,
        slot_of_ms(interval.start_ms(slot)) == slot,
{
    let place = interval.place();
    assert(interval.start_ms(slot) == 800 * (5 * slot + place));
    assert((800 * (5 * slot + place)) / 800 == 5 * slot + place);
    assert((5 * slot + place) % 5 == place);
    assert((800 * (5 * slot + place)) / 4000 == slot);
}

/// A moment lies within one interval of the start of its phase in its slot.
pub proof fn law_moment_follows_its_phase_start(ms: int)
    requires
        ms >= 0,
    ensures
        interval_of_ms(ms).start_ms(slot_of_ms(ms)) <= ms < interval_of_ms(ms).start_ms(
            slot_of_ms(ms),
        ) + MILLISECONDS_PER_INTERVAL,
{
    let n = ms / 800;
    assert(n / 5 == ms / 4000);
    assert(interval_of_ms(ms).place() == n % 5);
    assert(n == 5 * (n / 5) + n % 5);
}

/// The next boundary lies ahead by at most one interval once genesis has passed, and it is a
/// boundary: a whole number of intervals after genesis.
pub proof fn law_next_boundary(now_ms: int, genesis_ms: int)
    ensures
        boundary_distance(now_ms, genesis_ms) > 0,
        now_ms >= genesis_ms ==> boundary_distance(now_ms, genesis_ms)
            <= MILLISECONDS_PER_INTERVAL,
        now_ms + boundary_distance(now_ms, genesis_ms) >= genesis_ms,
        (now_ms + boundary_distance(now_ms, genesis_ms) - genesis_ms)
            % MILLISECONDS_PER_INTERVAL as int == 0,
{
    if now_ms >= genesis_ms {
        let d = now_ms - genesis_ms;
        assert(d + (800 - d % 800) == 800 * (d / 800) + 800);
        assert((800 * (d / 800) + 800) % 800 == 0);
    }
}

/// A tick that ends before the boundary that followed its start is followed by a tick at that
/// very boundary; one that overran it is followed by a tick at once. Either way no interval is
/// passed over without a tick.
pub proof fn law_no_interval_is_passed_over(entered_ms: int, finished_ms: int, genesis_ms: int)
    requires
        entered_ms <= finished_ms,
    ensures
        ({
            let boundary = entered_ms + boundary_distance(entered_ms, genesis_ms);
            if finished_ms < boundary {
                finished_ms + tick_delay(entered_ms, finished_ms, genesis_ms) == boundary
            } else {
                tick_delay(entered_ms, finished_ms, genesis_ms) == 0
            }
        }),
{
    let boundary = entered_ms + boundary_distance(entered_ms, genesis_ms);
    if finished_ms < boundary && entered_ms >= genesis_ms {
        let a = entered_ms - genesis_ms;
        let b = finished_ms - genesis_ms;
        assert(a / 800 == b / 800);
        assert(a == 800 * (a / 800) + a % 800);
        assert(b == 800 * (b / 800) + b % 800);
    }
}

} // verus!
