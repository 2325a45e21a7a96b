//! What holds of following the Beacon Chain.
use crate::chain::beacon::{
    after_holding, beacon_concluded, beacon_slot_at, beacon_taken_up, beacon_turn_of, change_of,
    head_is_due, head_recomputations, report_of, slot_has_turned, BeaconBlockInfo,
    BeaconCascadeStep, BeaconStep, HeadChange, HeadUpdate, Held,
};
use crate::chain::server::BlockSource;
use crate::primitives::H256;
use vstd::prelude::*;

verus! {

/// The wall clock is in a slot for as many seconds as a slot takes, counted from genesis, and in
/// the first one before genesis.
pub proof fn law_beacon_slots_follow_the_wall_clock(
    now_ms: int,
    genesis_time: int,
    seconds_per_slot: int,
)
    requires
        now_ms >= 0,
        genesis_time >= 0,
        seconds_per_slot > 0,
    ensures
        now_ms < 1000 * genesis_time ==> beacon_slot_at(now_ms, genesis_time, seconds_per_slot)
            == 0,
        now_ms >= 1000 * genesis_time ==> {
            let slot = beacon_slot_at(now_ms, genesis_time, seconds_per_slot);
            &&& slot >= 0
            &&& genesis_time + slot * seconds_per_slot <= now_ms / 1000
            &&& now_ms / 1000 < genesis_time + (slot + 1) * seconds_per_slot
        },
{
    if now_ms >= 1000 * genesis_time {
        let passed = now_ms / 1000 - genesis_time;
        vstd::arithmetic::div_mod::lemma_fundamental_div_mod(passed, seconds_per_slot);
        vstd::arithmetic::div_mod::lemma_mod_bound(passed, seconds_per_slot);
        vstd::arithmetic::div_mod::lemma_div_pos_is_pos(passed, seconds_per_slot);
        let slot = passed / seconds_per_slot;
        assert(slot * seconds_per_slot == seconds_per_slot * slot) by (nonlinear_arith);
        assert((slot + 1) * seconds_per_slot == seconds_per_slot * slot + seconds_per_slot)
            by (nonlinear_arith);
    }
}

/// A slot has turned exactly if the clock stands at a later one: one that stands still or has
/// gone back turns nothing.
pub proof fn law_a_slot_turns_forward_alone(a: int, b: int)
    ensures
        slot_has_turned(a, b) <==> a < b,
        !(slot_has_turned(a, b) && slot_has_turned(b, a)),
{
}

/// A report names the first slots of the finalized and the justified epoch, 32 slots making an
/// epoch, and the head, for which the highest imported slot stands in as long as there is none.
pub proof fn law_reports_name_first_slots_and_the_head(
    wall: u64,
    finalized_epoch: int,
    justified_epoch: int,
    highest: u64,
    head: u64,
)
    requires
        0 <= 32 * finalized_epoch <= u64::MAX,
        0 <= 32 * justified_epoch <= u64::MAX,
    ensures
        ({
            let with = report_of(wall, finalized_epoch, justified_epoch, highest, Some(head));
            let without = report_of(wall, finalized_epoch, justified_epoch, highest, None);
            &&& with.wall_clock_slot == wall && without.wall_clock_slot == wall
            &&& with.finalized_slot == 32 * finalized_epoch && without.finalized_slot == 32
                * finalized_epoch
            &&& with.justified_slot == 32 * justified_epoch && without.justified_slot == 32
                * justified_epoch
            &&& with.head_slot == head && without.head_slot == highest
            &&& with.max_seen_slot == highest && without.max_seen_slot == highest
        }),
{
}

/// A head that is the same block has not moved; any other has, and it is a reorganisation exactly
/// if blocks of the head before were left behind, told with their number and that head.
pub proof fn law_heads_move_exactly_to_other_blocks(
    update: HeadUpdate,
    slot: u64,
    root: H256,
    depth: u64,
)
    ensures
        update.previous is None ==> change_of(update) is Moved,
        update.previous == Some((slot, root)) && root == update.root ==> change_of(update)
            is Unmoved,
        update.previous == Some((slot, root)) && root != update.root && update.reorg_depth is None
            ==> change_of(update) is Moved,
        update.previous == Some((slot, root)) && root != update.root && update.reorg_depth == Some(
            depth,
        ) ==> change_of(update) == (HeadChange::Reorg {
            depth,
            previous_slot: slot,
            previous_root: root,
        }),
{
}

/// A block is imported exactly if it is new and its parent is known; a new one whose parent is
/// unknown is held, and one that is known is left alone.
pub proof fn law_blocks_are_imported_once_and_after_their_parent(parent_known: bool)
    ensures
        beacon_taken_up(true, parent_known) is Known,
        beacon_taken_up(false, true) is Import,
        beacon_taken_up(false, false) is Hold,
{
}

/// What a held block waits for is asked for whenever the network side is connected; a block that
/// was dropped is counted, and asks for nothing.
pub proof fn law_held_blocks_ask_for_their_ancestor(missing: H256, linked: bool)
    ensures
        after_holding(Held::Buffered(missing), true) == (BeaconStep::Request { root: missing }),
        after_holding(Held::Buffered(missing), false) is Done,
        after_holding(Held::Full, linked) is CountDropped,
{
}

/// A block that fork choice took releases what was held for it, and is counted as fetched exactly
/// if it was; one that was refused releases nothing.
pub proof fn law_imported_blocks_release_their_children(
    block: BeaconBlockInfo,
    source: BlockSource,
)
    ensures
        beacon_concluded(block, BlockSource::Sync, true) == (BeaconStep::Imported {
            count_fetched: true,
            release: block.root,
        }),
        beacon_concluded(block, BlockSource::Gossip, true) == (BeaconStep::Imported {
            count_fetched: false,
            release: block.root,
        }),
        beacon_concluded(block, source, false) is Done,
{
}

/// The head is due in the first slot that a cascade ends in, and whenever the slot is another one
/// than that it was last recomputed for: cascades in distinct slots all recompute it.
pub proof fn law_every_slot_gets_its_head(updated_for: Option<u64>, slots: Seq<u64>)
    requires
        forall|i: int| 0 <= i < slots.len() - 1 ==> #[trigger] slots[i] != slots[i + 1],
        slots.len() > 0 ==> updated_for != Some(slots[0]),
    ensures
        head_recomputations(updated_for, slots) == slots.len(),
        head_is_due(None, 0),
    decreases slots.len(),
{
    if slots.len() > 0 {
        let rest = slots.skip(1);
        assert forall|i: int| 0 <= i < rest.len() - 1 implies #[trigger] rest[i] != rest[i + 1] by {
            assert(slots[i + 1] != slots[i + 2]);
        }
        if rest.len() > 0 {
            assert(slots[0] != slots[1]);
            assert(rest[0] == slots[1]);
        }
        law_every_slot_gets_its_head(Some(slots[0]), rest);
    }
}

/// The blocks of a beacon cascade have their turns in the order in which they were queued, and the
/// cascade is finished once there is none.
pub proof fn law_queued_beacon_blocks_have_their_turns_in_order<B>(
    first: (BeaconBlockInfo, B),
    rest: Seq<(BeaconBlockInfo, B)>,
    next: (BeaconBlockInfo, B),
)
    ensures
        beacon_turn_of(seq![first] + rest) == (BeaconCascadeStep::Process(first.0, first.1), rest),
        beacon_turn_of((seq![first] + rest).push(next)) == (
            BeaconCascadeStep::Process(first.0, first.1),
            rest.push(next),
        ),
        beacon_turn_of(Seq::<(BeaconBlockInfo, B)>::empty()) == (
            BeaconCascadeStep::<B>::Finish,
            Seq::<(BeaconBlockInfo, B)>::empty(),
        ),
{
    assert((seq![first] + rest).skip(1) =~= rest);
    assert((seq![first] + rest).push(next).skip(1) =~= rest.push(next));
}

} // verus!
