use ethlambda::clock::{
    genesis_ms, low_32_bits, ms_until_genesis, ms_until_next_interval, next_tick_delay,
    startup_key_slot, wall_clock_slot, SlotInterval, INTERVALS_PER_SLOT,
    MILLISECONDS_PER_INTERVAL, MILLISECONDS_PER_SLOT,
};

const ALL: [SlotInterval; 5] = [
    SlotInterval::BlockPublication,
    SlotInterval::AttestationProduction,
    SlotInterval::Aggregation,
    SlotInterval::SafeTargetUpdate,
    SlotInterval::EndOfSlot,
];

#[test]
fn a_slot_has_five_intervals_of_800_ms() {
    assert_eq!(MILLISECONDS_PER_INTERVAL, 800);
    assert_eq!(INTERVALS_PER_SLOT, 5);
    assert_eq!(MILLISECONDS_PER_SLOT, MILLISECONDS_PER_INTERVAL * INTERVALS_PER_SLOT);
}

#[test]
fn phases_come_in_order() {
    for (n, interval) in ALL.iter().enumerate() {
        assert_eq!(SlotInterval::from_intervals_since_genesis(n as u64), *interval);
        assert_eq!(SlotInterval::from_intervals_since_genesis(n as u64 + 5), *interval);
        assert_eq!(SlotInterval::from_ms_since_genesis(n as u64 * 800), *interval);
        assert_eq!(SlotInterval::from_ms_since_genesis(n as u64 * 800 + 799), *interval);
    }
}

#[test]
fn the_start_of_a_phase_lies_in_the_phase() {
    for slot in [0u64, 1, 7, 1_000_000] {
        for interval in ALL {
            let ms = interval.to_ms_since_genesis(slot);
            assert_eq!(SlotInterval::from_ms_since_genesis(ms), interval);
            assert_eq!(ms / MILLISECONDS_PER_SLOT, slot);
        }
    }
    assert_eq!(SlotInterval::Aggregation.to_ms_since_genesis(3), 13_600);
}

#[test]
fn before_genesis_the_next_boundary_is_genesis() {
    assert_eq!(ms_until_next_interval(1_000, 5_000), 4_000);
}

#[test]
fn on_a_boundary_the_next_one_is_a_whole_interval_away() {
    assert_eq!(ms_until_next_interval(5_000, 5_000), 800);
    assert_eq!(ms_until_next_interval(5_800, 5_000), 800);
    assert_eq!(ms_until_next_interval(5_801, 5_000), 799);
    assert_eq!(ms_until_next_interval(6_599, 5_000), 1);
}

#[test]
fn the_wall_clock_slot_starts_at_genesis() {
    assert_eq!(wall_clock_slot(0, 10), 0);
    assert_eq!(wall_clock_slot(10_000, 10), 0);
    assert_eq!(wall_clock_slot(13_999, 10), 0);
    assert_eq!(wall_clock_slot(14_000, 10), 1);
    assert_eq!(genesis_ms(10), 10_000);
    assert_eq!(ms_until_genesis(9_000, 10), 1_000);
    assert_eq!(ms_until_genesis(11_000, 10), 0);
}

#[test]
fn key_slots_hold_32_bits() {
    assert_eq!(startup_key_slot(18_000, 10), 2);
    assert_eq!(low_32_bits(0x1_0000_0005), 5);
    assert_eq!(low_32_bits(0xffff_ffff), 0xffff_ffff);
}

#[test]
fn a_tick_in_time_is_followed_at_the_boundary() {
    // Entered 100 ms into an interval, finished 300 ms later: 400 ms are left.
    assert_eq!(next_tick_delay(5_100, 5_400, 5_000), 400);
}

#[test]
fn a_tick_that_overran_its_interval_is_followed_at_once() {
    assert_eq!(next_tick_delay(5_100, 5_800, 5_000), 0);
    assert_eq!(next_tick_delay(5_100, 9_000, 5_000), 0);
}

#[test]
fn a_clock_that_steps_back_during_a_tick_does_not_hasten_the_next() {
    assert_eq!(next_tick_delay(5_100, 5_000, 5_000), 800);
}
