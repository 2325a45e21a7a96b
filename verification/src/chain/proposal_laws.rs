//! What holds of every proposal and of the merge of its proof.
use crate::chain::proposal::{
    first_aggregate_fault, first_fault, lemma_aggregate_fault_stays, lemma_fault_stays, merges_all,
    MergeInput, ProofSource, ProposalStage, ResolveError, SignerKey,
};
use vstd::prelude::*;

verus! {

/// Whether validator `vid` is one whose attestation key decodes.
pub open spec fn can_sign(decodes: Seq<bool>, vid: u64) -> bool {
    vid < decodes.len() && decodes[vid as int]
}

proof fn lemma_no_fault(decodes: Seq<bool>, participants: Seq<u64>)
    ensures
        first_fault(decodes, participants) is None <==> forall|j: int|
            0 <= j < participants.len() ==> can_sign(decodes, #[trigger] participants[j]),
    decreases participants.len(),
{
    if participants.len() > 0 {
        let less = participants.drop_last();
        lemma_no_fault(decodes, less);
        if first_fault(decodes, participants) is None {
            assert forall|j: int| 0 <= j < participants.len() implies can_sign(
                decodes,
                #[trigger] participants[j],
            ) by {
                if j < less.len() {
                    assert(less[j] == participants[j]);
                }
            }
        }
        if forall|j: int|
            0 <= j < participants.len() ==> can_sign(decodes, #[trigger] participants[j]) {
            assert forall|j: int| 0 <= j < less.len() implies can_sign(
                decodes,
                #[trigger] less[j],
            ) by {
                assert(less[j] == participants[j]);
            }
            assert(can_sign(decodes, participants[participants.len() - 1]));
        }
    }
}

/// The keys of the aggregates resolve exactly if every participant of every aggregate is a
/// validator whose attestation key decodes.
pub proof fn law_keys_resolve_exactly_if_all_can_sign(
    decodes: Seq<bool>,
    aggregates: Seq<Vec<u64>>,
)
    ensures
        first_aggregate_fault(decodes, aggregates) is None <==> forall|i: int, j: int|
            0 <= i < aggregates.len() && 0 <= j < aggregates[i]@.len() ==> can_sign(
                decodes,
                #[trigger] aggregates[i]@[j],
            ),
    decreases aggregates.len(),
{
    if aggregates.len() > 0 {
        let less = aggregates.drop_last();
        let last = aggregates.last()@;
        law_keys_resolve_exactly_if_all_can_sign(decodes, less);
        lemma_no_fault(decodes, last);
        if first_aggregate_fault(decodes, aggregates) is None {
            assert forall|i: int, j: int|
                0 <= i < aggregates.len() && 0 <= j < aggregates[i]@.len() implies can_sign(
                decodes,
                #[trigger] aggregates[i]@[j],
            ) by {
                if i < less.len() {
                    assert(less[i]@[j] == aggregates[i]@[j]);
                }
            }
        }
        if forall|i: int, j: int|
            0 <= i < aggregates.len() && 0 <= j < aggregates[i]@.len() ==> can_sign(
                decodes,
                #[trigger] aggregates[i]@[j],
            ) {
            assert forall|i: int, j: int|
                0 <= i < less.len() && 0 <= j < less[i]@.len() implies can_sign(
                decodes,
                #[trigger] less[i]@[j],
            ) by {
                assert(less[i]@[j] == aggregates[i]@[j]);
            }
            assert forall|j: int| 0 <= j < last.len() implies can_sign(
                decodes,
                #[trigger] last[j],
            ) by {
                assert(aggregates[aggregates.len() - 1]@[j] == last[j]);
            }
        }
    }
}

/// The fault that is reported is that of the first participant, in order, that cannot sign: that
/// it is none of the validators, or that its key does not decode.
pub proof fn law_the_first_bad_participant_is_reported(
    decodes: Seq<bool>,
    aggregates: Seq<Vec<u64>>,
    at: int,
    place: int,
)
    requires
        0 <= at < aggregates.len(),
        0 <= place < aggregates[at]@.len(),
        !can_sign(decodes, aggregates[at]@[place]),
        forall|i: int, j: int|
            0 <= i < at && 0 <= j < aggregates[i]@.len() ==> can_sign(
                decodes,
                #[trigger] aggregates[i]@[j],
            ),
        forall|j: int| 0 <= j < place ==> can_sign(decodes, #[trigger] aggregates[at]@[j]),
    ensures
        aggregates[at]@[place] >= decodes.len() ==> first_aggregate_fault(decodes, aggregates)
            == Some(ResolveError::OutOfRange(aggregates[at]@[place])),
        aggregates[at]@[place] < decodes.len() ==> first_aggregate_fault(decodes, aggregates)
            == Some(ResolveError::Undecodable(aggregates[at]@[place])),
{
    let participants = aggregates[at]@;
    let before = participants.take(place);
    let through = participants.take(place + 1);
    lemma_no_fault(decodes, before);
    assert(forall|j: int| 0 <= j < before.len() ==> can_sign(decodes, #[trigger] before[j])) by {
        assert forall|j: int| 0 <= j < before.len() implies can_sign(
            decodes,
            #[trigger] before[j],
        ) by {
            assert(before[j] == aggregates[at]@[j]);
        }
    }
    assert(through.drop_last() =~= before);
    assert(through.last() == participants[place]);
    lemma_fault_stays(decodes, participants, place + 1);
    let earlier = aggregates.take(at);
    law_keys_resolve_exactly_if_all_can_sign(decodes, earlier);
    assert forall|i: int, j: int| 0 <= i < earlier.len() && 0 <= j < earlier[i]@.len() implies
        can_sign(decodes, #[trigger] earlier[i]@[j]) by {
        assert(earlier[i]@[j] == aggregates[i]@[j]);
    }
    assert(aggregates.take(at + 1).drop_last() =~= earlier);
    assert(aggregates.take(at + 1).last() == aggregates[at]);
    lemma_aggregate_fault_stays(decodes, aggregates, at + 1);
}

/// Each aggregate goes into the merge at its own place, with its own proof and the attestation
/// keys of its own participants, in their order.
pub proof fn law_aggregates_keep_their_signers(
    inputs: Seq<MergeInput>,
    aggregates: Seq<Vec<u64>>,
    validator_id: u64,
    i: int,
    j: int,
)
    requires
        merges_all(inputs, aggregates, validator_id),
        0 <= i < aggregates.len() <= usize::MAX,
    ensures
        inputs[i].proof == ProofSource::Aggregate(i as usize),
        inputs[i].keys@.len() == aggregates[i]@.len(),
        0 <= j < aggregates[i]@.len() ==> inputs[i].keys@[j] == SignerKey::Attestation(
            aggregates[i]@[j],
        ),
{
}

/// The proposer goes into the merge last and once, with its proposal key and nobody else's.
pub proof fn law_the_proposer_is_merged_last(
    inputs: Seq<MergeInput>,
    aggregates: Seq<Vec<u64>>,
    validator_id: u64,
)
    requires
        merges_all(inputs, aggregates, validator_id),
    ensures
        inputs.len() == aggregates.len() + 1,
        inputs[aggregates.len() as int].proof == ProofSource::Proposer,
        inputs[aggregates.len() as int].keys@.len() == 1,
        inputs[aggregates.len() as int].keys@[0] == SignerKey::Proposal(validator_id),
{
}

/// A stage whose work fails ends the proposal as failed, but for the report and the wait, which
/// cannot fail, the build, whose failure is reported first, and the publication, after which
/// nothing is left to do.
pub proof fn law_a_failed_stage_fails_the_proposal(built: bool)
    ensures
        ProposalStage::SignRoot.after(false) == ProposalStage::Failed,
        ProposalStage::FindProposer.after(false) == ProposalStage::Failed,
        ProposalStage::DecodeKey.after(false) == ProposalStage::Failed,
        ProposalStage::DecodeSignature.after(false) == ProposalStage::Failed,
        ProposalStage::WrapSignature.after(false) == ProposalStage::Failed,
        ProposalStage::ResolveKeys.after(false) == ProposalStage::Failed,
        ProposalStage::Merge.after(false) == ProposalStage::Failed,
        ProposalStage::Assemble.after(false) == ProposalStage::Failed,
        ProposalStage::Import.after(false) == ProposalStage::Failed,
        (ProposalStage::ReportMoves { built }).after(false) == (ProposalStage::ReportMoves {
            built,
        }).after(true),
        ProposalStage::Align.after(false) == ProposalStage::Import,
        ProposalStage::Publish.after(false) == ProposalStage::Done,
{
}

/// A proposal that is over stays as it ended.
pub proof fn law_a_proposal_ends_once(succeeded: bool)
    ensures
        ProposalStage::Done.after(succeeded) == ProposalStage::Done,
        ProposalStage::Failed.after(succeeded) == ProposalStage::Failed,
{
}

/// The stages of a proposal that goes well: the block is built, its root is signed, the proposer
/// is found and its key and signature decoded, the signature is wrapped, all keys are resolved
/// and all proofs merged and assembled, and then the slot is awaited, and the block is imported
/// and published.
pub proof fn law_the_stages_of_a_proposal()
    ensures
        ProposalStage::Build.after(true) == (ProposalStage::ReportMoves { built: true }),
        (ProposalStage::ReportMoves { built: true }).after(true) == ProposalStage::SignRoot,
        ProposalStage::SignRoot.after(true) == ProposalStage::FindProposer,
        ProposalStage::FindProposer.after(true) == ProposalStage::DecodeKey,
        ProposalStage::DecodeKey.after(true) == ProposalStage::DecodeSignature,
        ProposalStage::DecodeSignature.after(true) == ProposalStage::WrapSignature,
        ProposalStage::WrapSignature.after(true) == ProposalStage::ResolveKeys,
        ProposalStage::ResolveKeys.after(true) == ProposalStage::Merge,
        ProposalStage::Merge.after(true) == ProposalStage::Assemble,
        ProposalStage::Assemble.after(true) == ProposalStage::Align,
        ProposalStage::Align.after(true) == ProposalStage::Import,
        ProposalStage::Import.after(true) == ProposalStage::Publish,
        ProposalStage::Publish.after(true) == ProposalStage::Done,
{
}

} // verus!
