//! What holds of slots, phases and ticks at every moment.
use crate::clock::{
    boundary_distance, interval_at, interval_of_ms, key_slot, since_genesis, slot_of_ms, tick_delay,
    until_genesis, SlotInterval,
};
use vstd::prelude::*;

verus! {

/// A slot takes four seconds: it is the first one for four seconds from genesis on, and every
/// four seconds the next one follows.
pub proof fn law_slots_take_four_seconds(ms: int)
    requires
        ms >= 0,
    ensures
        ms < 4000 ==> slot_of_ms(ms) == 0,
        slot_of_ms(ms + 4000) == slot_of_ms(ms) + 1,
        4000 * slot_of_ms(ms) <= ms < 4000 * (slot_of_ms(ms) + 1),
{
}

/// The phases of a slot follow one another every 800 milliseconds: publication, attestation,
/// aggregation, the safe target, and the end of the slot.
pub proof fn law_phases_follow_one_another(ms: int)
    requires
        ms >= 0,
    ensures
        ms % 4000 < 800 <==> interval_of_ms(ms) == SlotInterval::BlockPublication,
        800 <= ms % 4000 < 1600 <==> interval_of_ms(ms) == SlotInterval::AttestationProduction,
        1600 <= ms % 4000 < 2400 <==> interval_of_ms(ms) == SlotInterval::Aggregation,
        2400 <= ms % 4000 < 3200 <==> interval_of_ms(ms) == SlotInterval::SafeTargetUpdate,
        3200 <= ms % 4000 <==> interval_of_ms(ms) == SlotInterval::EndOfSlot,
{
    let n = ms / 800;
    assert(n == 5 * (n / 5) + n % 5);
    assert(n / 5 == ms / 4000);
    assert(ms == 4000 * (ms / 4000) + ms % 4000);
    assert(ms == 800 * n + ms % 800);
}

/// A phase starts as many intervals of 800 milliseconds into its slot as phases come before it.
pub proof fn law_phases_start_one_interval_apart(slot: int)
    ensures
        SlotInterval::BlockPublication.start_ms(slot) == 4000 * slot,
        SlotInterval::AttestationProduction.start_ms(slot) == 4000 * slot + 800,
        SlotInterval::Aggregation.start_ms(slot) == 4000 * slot + 1600,
        SlotInterval::SafeTargetUpdate.start_ms(slot) == 4000 * slot + 2400,
        SlotInterval::EndOfSlot.start_ms(slot) == 4000 * slot + 3200,
{
}

/// The clock counts from genesis, and stands still before it.
pub proof fn law_the_clock_starts_at_genesis(now_ms: int, genesis_ms: int, passed: int)
    requires
        passed >= 0,
    ensures
        now_ms <= genesis_ms ==> since_genesis(now_ms, genesis_ms) == 0,
        since_genesis(genesis_ms + passed, genesis_ms) == passed,
{
}

/// Before genesis the next boundary is genesis itself.
pub proof fn law_genesis_is_the_first_boundary(now_ms: int, genesis_ms: int)
    requires
        now_ms < genesis_ms,
    ensures
        now_ms + boundary_distance(now_ms, genesis_ms) == genesis_ms,
{
}

/// No boundary lies between a moment and the boundary that is said to be next.
pub proof fn law_no_boundary_is_passed_over(now_ms: int, genesis_ms: int, k: int)
    requires
        now_ms >= genesis_ms,
        genesis_ms + 800 * k > now_ms,
    ensures
        now_ms + boundary_distance(now_ms, genesis_ms) <= genesis_ms + 800 * k,
{
    let d = now_ms - genesis_ms;
    assert(d == 800 * (d / 800) + d % 800);
    assert(k > d / 800);
}

/// A tick is never put off by more than one interval once genesis has passed, whatever the clock
/// did in between.
pub proof fn law_ticks_are_never_far_apart(entered_ms: int, finished_ms: int, genesis_ms: int)
    requires
        finished_ms >= genesis_ms,
    ensures
        0 <= tick_delay(entered_ms, finished_ms, genesis_ms) <= 800,
        finished_ms <= entered_ms ==> tick_delay(entered_ms, finished_ms, genesis_ms)
            == boundary_distance(finished_ms, genesis_ms),
{
}

/// Genesis comes after just the time that is left until it, and no time is left from then on.
pub proof fn law_the_wait_for_genesis_ends_at_genesis(now_ms: int, genesis_time: int)
    ensures
        now_ms <= 1000 * genesis_time ==> now_ms + until_genesis(now_ms, genesis_time) == 1000
            * genesis_time,
        now_ms >= 1000 * genesis_time ==> until_genesis(now_ms, genesis_time) == 0,
{
}

/// A key counts slots as they are as long as 32 bits hold them, and from zero again after that.
pub proof fn law_keys_count_in_32_bits(slot: int)
    requires
        slot >= 0,
    ensures
        slot <= u32::MAX ==> key_slot(slot) == slot,
        key_slot(slot + u32::MAX + 1) == key_slot(slot),
{
}

/// The phases of a slot follow one another from the publication of the block to the end.
pub proof fn law_whole_intervals_tell_the_phase(intervals: int)
    requires
        intervals >= 0,
    ensures
        intervals % 5 == 0 <==> interval_at(intervals % 5) == SlotInterval::BlockPublication,
        intervals % 5 == 1 <==> interval_at(intervals % 5) == SlotInterval::AttestationProduction,
        intervals % 5 == 2 <==> interval_at(intervals % 5) == SlotInterval::Aggregation,
        intervals % 5 == 3 <==> interval_at(intervals % 5) == SlotInterval::SafeTargetUpdate,
        intervals % 5 == 4 <==> interval_at(intervals % 5) == SlotInterval::EndOfSlot,
        interval_of_ms(800 * intervals) == interval_at(intervals % 5),
{
}

} // verus!
