//! Building, signing and publishing the block of a slot.
use crate::clock::{SlotInterval, MILLISECONDS_PER_SLOT};
use vstd::prelude::*;

verus! {

/// How far a proposal has come: the work that is to be done next.
#[derive(Clone, Copy, Debug, PartialEq, Eq, Structural)]
pub enum ProposalStage {
    /// Advance the store to the slot and build the block on it.
    Build,
    /// Report how advancing the store moved the head and the checkpoints.
    ReportMoves {
        /// Whether the block was built.
        built: bool,
    },
    /// Sign the block's root.
    SignRoot,
    /// Find the proposer among the validators of the head state.
    FindProposer,
    /// Decode the proposer's proposal key.
    DecodeKey,
    /// Decode the signature.
    DecodeSignature,
    /// Wrap the signature as an aggregate of its own.
    WrapSignature,
    /// Resolve the keys of all aggregates.
    ResolveKeys,
    /// Merge all aggregates into one.
    Merge,
    /// Make the block's proof of what the merge gave.
    Assemble,
    /// Wait for the slot to begin.
    Align,
    /// Import the block here.
    Import,
    /// Publish the block.
    Publish,
    /// Nothing: the proposal is finished.
    Done,
    /// Nothing: the proposal has failed.
    Failed,
}

impl ProposalStage {
    /// Whether the proposal is over.
    pub open spec fn over(self) -> bool {
        self == ProposalStage::Done || self == ProposalStage::Failed
    }

    /// The stage that follows a stage that went well.
    pub open spec fn following(self) -> ProposalStage {
        match self {
            ProposalStage::Build => ProposalStage::ReportMoves { built: true },
            ProposalStage::ReportMoves { built } => if built {
                ProposalStage::SignRoot
            } else {
                ProposalStage::Failed
            },
            ProposalStage::SignRoot => ProposalStage::FindProposer,
            ProposalStage::FindProposer => ProposalStage::DecodeKey,
            ProposalStage::DecodeKey => ProposalStage::DecodeSignature,
            ProposalStage::DecodeSignature => ProposalStage::WrapSignature,
            ProposalStage::WrapSignature => ProposalStage::ResolveKeys,
            ProposalStage::ResolveKeys => ProposalStage::Merge,
            ProposalStage::Merge => ProposalStage::Assemble,
            ProposalStage::Assemble => ProposalStage::Align,
            ProposalStage::Align => ProposalStage::Import,
            ProposalStage::Import => ProposalStage::Publish,
            ProposalStage::Publish => ProposalStage::Done,
            ProposalStage::Done => ProposalStage::Done,
            ProposalStage::Failed => ProposalStage::Failed,
        }
    }

    /// The stage that follows a stage with the given outcome. Reporting and waiting cannot
    /// fail; the block is out of our hands once it was imported, so a failed publication ends
    /// the proposal like one that went well.
    pub open spec fn after(self, succeeded: bool) -> ProposalStage {
        if succeeded {
            self.following()
        } else {
            match self {
                ProposalStage::Build => ProposalStage::ReportMoves { built: false },
                ProposalStage::ReportMoves { .. } => self.following(),
                ProposalStage::Align => self.following(),
                ProposalStage::Publish => self.following(),
                ProposalStage::Done => ProposalStage::Done,
                _ => ProposalStage::Failed,
            }
        }
    }
}

/// A proposal under way.
#[derive(Clone, Copy, Debug)]
pub struct Proposal {
    /// The slot of the block.
    pub slot: u64,
    /// The validator that proposes it.
    pub validator_id: u64,
    /// When the slot begins, in milliseconds since the epoch.
    pub slot_start_ms: u64,
    /// The work that is to be done next.
    pub stage: ProposalStage,
}

impl Proposal {
    /// A proposal for `slot` by `validator_id`.
    pub fn new(slot: u64, validator_id: u64, genesis_time_ms: u64) -> (res: Proposal)
        requires
            genesis_time_ms + slot * MILLISECONDS_PER_SLOT <= u64::MAX,
        ensures
            res.slot == slot,
            res.validator_id == validator_id,
            res.slot_start_ms == genesis_time_ms + SlotInterval::BlockPublication.start_ms(
                slot as int,
            ),
            res.stage == ProposalStage::Build,
    {
        Proposal {
            slot,
            validator_id,
            slot_start_ms: genesis_time_ms + slot * MILLISECONDS_PER_SLOT,
            stage: ProposalStage::Build,
        }
    }

    /// Goes on after the stage's work went well or failed.
    pub fn advance(&mut self, succeeded: bool)
        ensures
            final(self).stage == old(self).stage.after(succeeded),
            final(self).slot == old(self).slot,
            final(self).validator_id == old(self).validator_id,
            final(self).slot_start_ms == old(self).slot_start_ms,
    {
        self.stage = match self.stage {
            ProposalStage::Build => ProposalStage::ReportMoves { built: succeeded },
            ProposalStage::ReportMoves { built } => if built {
                ProposalStage::SignRoot
            } else {
                ProposalStage::Failed
            },
            ProposalStage::Align => ProposalStage::Import,
            ProposalStage::Publish => ProposalStage::Done,
            ProposalStage::Done => ProposalStage::Done,
            ProposalStage::Failed => ProposalStage::Failed,
            stage => if !succeeded {
                ProposalStage::Failed
            } else {
                match stage {
                    ProposalStage::SignRoot => ProposalStage::FindProposer,
                    ProposalStage::FindProposer => ProposalStage::DecodeKey,
                    ProposalStage::DecodeKey => ProposalStage::DecodeSignature,
                    ProposalStage::DecodeSignature => ProposalStage::WrapSignature,
                    ProposalStage::WrapSignature => ProposalStage::ResolveKeys,
                    ProposalStage::ResolveKeys => ProposalStage::Merge,
                    ProposalStage::Merge => ProposalStage::Assemble,
                    ProposalStage::Assemble => ProposalStage::Align,
                    _ => ProposalStage::Publish,
                }
            },
        };
    }

    /// How far `now_ms` lies before the slot's beginning.
    pub open spec fn time_to_slot(self, now_ms: int) -> int {
        if now_ms < self.slot_start_ms {
            self.slot_start_ms - now_ms
        } else {
            0
        }
    }

    /// How long to wait, at `now_ms`, until the slot begins.
    pub fn alignment_wait_ms(&self, now_ms: u64) -> (res: u64)
        ensures
            res == self.time_to_slot(now_ms as int),
    {
        self.slot_start_ms.saturating_sub(now_ms)
    }

    /// Whether the proposer is one of the `num_validators` validators of the head state.
    pub fn proposer_in_range(&self, num_validators: usize) -> (res: bool)
        ensures
            res == (self.validator_id < num_validators),
    {
        self.validator_id < num_validators as u64
    }
}

/// A key that takes part in a merge.
#[derive(Clone, Copy, Debug, PartialEq, Eq, Structural)]
pub enum SignerKey {
    /// The attestation key of a validator.
    Attestation(u64),
    /// The proposal key of a validator.
    Proposal(u64),
}

/// A proof that takes part in a merge.
#[derive(Clone, Copy, Debug, PartialEq, Eq, Structural)]
pub enum ProofSource {
    /// The proof of the attestation aggregate at this place.
    Aggregate(usize),
    /// The wrapped signature of the proposer.
    Proposer,
}

/// One aggregate that takes part in a merge: the keys of those who signed it, and its proof.
#[derive(Debug)]
pub struct MergeInput {
    /// The keys of those who signed.
    pub keys: Vec<SignerKey>,
    /// The proof of their signatures.
    pub proof: ProofSource,
}

/// Why the keys of the aggregates could not be resolved.
#[derive(Clone, Copy, Debug, PartialEq, Eq, Structural)]
pub enum ResolveError {
    /// A participant is none of the validators.
    OutOfRange(u64),
    /// The attestation key of a participant does not decode.
    Undecodable(u64),
}

/// What stands against validator `vid` as a participant; `decodes` says of each validator
/// whether its attestation key decodes.
pub open spec fn participant_fault(decodes: Seq<bool>, vid: u64) -> Option<ResolveError> {
    if vid >= decodes.len() {
        Some(ResolveError::OutOfRange(vid))
    } else if !decodes[vid as int] {
        Some(ResolveError::Undecodable(vid))
    } else {
        None
    }
}

/// The first fault of a list of participants.
pub open spec fn first_fault(decodes: Seq<bool>, participants: Seq<u64>) -> Option<ResolveError>
    decreases participants.len(),
{
    if participants.len() == 0 {
        None
    } else {
        match first_fault(decodes, participants.drop_last()) {
            Some(fault) => Some(fault),
            None => participant_fault(decodes, participants.last()),
        }
    }
}

/// The first fault of a list of aggregates.
pub open spec fn first_aggregate_fault(decodes: Seq<bool>, aggregates: Seq<Vec<u64>>) -> Option<
    ResolveError,
>
    decreases aggregates.len(),
{
    if aggregates.len() == 0 {
        None
    } else {
        match first_aggregate_fault(decodes, aggregates.drop_last()) {
            Some(fault) => Some(fault),
            None => first_fault(decodes, aggregates.last()@),
        }
    }
}

/// Whether `input` is the aggregate at `place` with the keys of its participants.
pub open spec fn merges_aggregate(input: MergeInput, participants: Seq<u64>, place: int) -> bool {
    &&& input.proof == ProofSource::Aggregate(place as usize)
    &&& input.keys@ == participants.map_values(|vid: u64| SignerKey::Attestation(vid))
}

/// Whether `inputs` are all aggregates, in order, with the keys of their participants, and last
/// the wrapped signature of the proposer.
pub open spec fn merges_all(
    inputs: Seq<MergeInput>,
    aggregates: Seq<Vec<u64>>,
    validator_id: u64,
) -> bool {
    &&& inputs.len() == aggregates.len() + 1
    &&& forall|i: int|
        0 <= i < aggregates.len() ==> merges_aggregate(
            #[trigger] inputs[i],
            aggregates[i]@,
            i,
        )
    &&& inputs.last().keys@ == seq![SignerKey::Proposal(validator_id)]
    &&& inputs.last().proof == ProofSource::Proposer
}

fn resolve_participants(participants: &Vec<u64>, decodes: &Vec<bool>) -> (res: Result<
    Vec<SignerKey>,
    ResolveError,
>)
    ensures
        match res {
            Ok(keys) => first_fault(decodes@, participants@) is None && keys@
                == participants@.map_values(|vid: u64| SignerKey::Attestation(vid)),
            Err(fault) => first_fault(decodes@, participants@) == Some(fault),
        },
{
    let mut keys: Vec<SignerKey> = Vec::new();
    let mut i: usize = 0;
    while i < participants.len()
        invariant
            i <= participants@.len(),
            first_fault(decodes@, participants@.take(i as int)) is None,
            keys@ == participants@.take(i as int).map_values(
                |vid: u64| SignerKey::Attestation(vid),
            ),
        decreases participants@.len() - i,
    {
        let vid: u64 = participants[i];
        proof {
            assert(participants@.take(i + 1).drop_last() =~= participants@.take(i as int));
            assert(participants@.take(i + 1).last() == vid);
        }
        if vid >= decodes.len() as u64 {
            proof {
                lemma_fault_stays(decodes@, participants@, i + 1);
            }
            return Err(ResolveError::OutOfRange(vid));
        }
        if !decodes[vid as usize] {
            proof {
                lemma_fault_stays(decodes@, participants@, i + 1);
            }
            return Err(ResolveError::Undecodable(vid));
        }
        keys.push(SignerKey::Attestation(vid));
        i = i + 1;
        assert(keys@ =~= participants@.take(i as int).map_values(
            |vid: u64| SignerKey::Attestation(vid),
        ));
    }
    assert(participants@.take(i as int) =~= participants@);
    Ok(keys)
}

pub(crate) proof fn lemma_fault_stays(decodes: Seq<bool>, participants: Seq<u64>, n: int)
    requires
        0 <= n <= participants.len(),
        first_fault(decodes, participants.take(n)) is Some,
    ensures
        first_fault(decodes, participants) == first_fault(decodes, participants.take(n)),
    decreases participants.len(),
{
    if n == participants.len() {
        assert(participants.take(n) =~= participants);
    } else {
        assert(participants.drop_last().take(n) =~= participants.take(n));
        lemma_fault_stays(decodes, participants.drop_last(), n);
    }
}

pub(crate) proof fn lemma_aggregate_fault_stays(decodes: Seq<bool>, aggregates: Seq<Vec<u64>>, n: int)
    requires
        0 <= n <= aggregates.len(),
        first_aggregate_fault(decodes, aggregates.take(n)) is Some,
    ensures
        first_aggregate_fault(decodes, aggregates) == first_aggregate_fault(
            decodes,
            aggregates.take(n),
        ),
    decreases aggregates.len(),
{
    if n == aggregates.len() {
        assert(aggregates.take(n) =~= aggregates);
    } else {
        assert(aggregates.drop_last().take(n) =~= aggregates.take(n));
        lemma_aggregate_fault_stays(decodes, aggregates.drop_last(), n);
    }
}

/// The inputs of the merge of a block's proof: each attestation aggregate, in order, with the
/// attestation keys of its participants, and last the wrapped signature of the proposer with its
/// proposal key. The first participant that is no validator, or whose key does not decode, makes
/// the whole fail.
pub fn resolve_merge_inputs(
    aggregates: &Vec<Vec<u64>>,
    decodes: &Vec<bool>,
    validator_id: u64,
) -> (res: Result<Vec<MergeInput>, ResolveError>)
    ensures
        match res {
            Ok(inputs) => {
                &&& first_aggregate_fault(decodes@, aggregates@) is None
                &&& merges_all(inputs@, aggregates@, validator_id)
            },
            Err(fault) => first_aggregate_fault(decodes@, aggregates@) == Some(fault),
        },
{
    let mut inputs: Vec<MergeInput> = Vec::new();
    let mut i: usize = 0;
    while i < aggregates.len()
        invariant
            i <= aggregates@.len(),
            first_aggregate_fault(decodes@, aggregates@.take(i as int)) is None,
            inputs@.len() == i,
            forall|j: int|
                0 <= j < i ==> merges_aggregate(#[trigger] inputs@[j], aggregates@[j]@, j),
        decreases aggregates@.len() - i,
    {
        proof {
            assert(aggregates@.take(i + 1).drop_last() =~= aggregates@.take(i as int));
            assert(aggregates@.take(i + 1).last() == aggregates@[i as int]);
        }
        match resolve_participants(&aggregates[i], decodes) {
            Err(fault) => {
                proof {
                    lemma_aggregate_fault_stays(decodes@, aggregates@, i + 1);
                }
                return Err(fault);
            },
            Ok(keys) => {
                inputs.push(MergeInput { keys, proof: ProofSource::Aggregate(i) });
            },
        }
        i = i + 1;
    }
    assert(aggregates@.take(i as int) =~= aggregates@);
    let mut keys: Vec<SignerKey> = Vec::new();
    keys.push(SignerKey::Proposal(validator_id));
    assert(keys@ =~= seq![SignerKey::Proposal(validator_id)]);
    inputs.push(MergeInput { keys, proof: ProofSource::Proposer });
    Ok(inputs)
}

/// The stage after a run of stages with the given outcomes.
pub open spec fn stage_after(outcomes: Seq<bool>) -> ProposalStage
    decreases outcomes.len(),
{
    if outcomes.len() == 0 {
        ProposalStage::Build
    } else {
        stage_after(outcomes.drop_last()).after(outcomes.last())
    }
}

/// A stage's place on the way to publication.
spec fn place(stage: ProposalStage) -> int {
    match stage {
        ProposalStage::Build => 0,
        ProposalStage::ReportMoves { .. } => 1,
        ProposalStage::SignRoot => 2,
        ProposalStage::FindProposer => 3,
        ProposalStage::DecodeKey => 4,
        ProposalStage::DecodeSignature => 5,
        ProposalStage::WrapSignature => 6,
        ProposalStage::ResolveKeys => 7,
        ProposalStage::Merge => 8,
        ProposalStage::Assemble => 9,
        ProposalStage::Align => 10,
        ProposalStage::Import => 11,
        ProposalStage::Publish => 12,
        ProposalStage::Done => 13,
        ProposalStage::Failed => -1,
    }
}

proof fn lemma_outcomes_so_far(outcomes: Seq<bool>)
    ensures
        place(stage_after(outcomes)) <= outcomes.len(),
        0 <= place(stage_after(outcomes)) < 13 ==> place(stage_after(outcomes))
            == outcomes.len(),
        stage_after(outcomes) matches ProposalStage::ReportMoves { built } ==> built
            == outcomes[0],
        place(stage_after(outcomes)) > 1 ==> forall|i: int|
            0 <= i < 12 && i < outcomes.len() && i != 1 && i != 10 ==> outcomes[i],
    decreases outcomes.len(),
{
    if outcomes.len() > 0 {
        lemma_outcomes_so_far(outcomes.drop_last());
        let before = stage_after(outcomes.drop_last());
        assert forall|i: int|
            place(stage_after(outcomes)) > 1 && 0 <= i < 12 && i < outcomes.len() && i != 1 && i
                != 10 implies outcomes[i] by {
            if i < outcomes.len() - 1 {
                assert(outcomes[i] == outcomes.drop_last()[i]);
            }
        }
        assert(outcomes.drop_last().len() > 0 ==> outcomes.drop_last()[0] == outcomes[0]);
    }
}

/// A block is published only after every stage before went well: it was built, signed, proved
/// and imported here.
pub proof fn law_published_only_after_all_went_well(outcomes: Seq<bool>)
    requires
        stage_after(outcomes) == ProposalStage::Publish,
    ensures
        outcomes.len() == 12,
        forall|i: int| 0 <= i < 12 && i != 1 && i != 10 ==> outcomes[i],
        stage_after(outcomes.drop_last()) == ProposalStage::Import,
{
    lemma_outcomes_so_far(outcomes);
    lemma_outcomes_so_far(outcomes.drop_last());
}

/// A run of stages that all go well publishes the block.
pub proof fn law_success_leads_to_publication(outcomes: Seq<bool>)
    requires
        outcomes.len() == 12,
        forall|i: int| 0 <= i < 12 ==> outcomes[i],
    ensures
        stage_after(outcomes) == ProposalStage::Publish,
{
    lemma_success(outcomes);
}

proof fn lemma_success(outcomes: Seq<bool>)
    requires
        outcomes.len() <= 12,
        forall|i: int| 0 <= i < outcomes.len() ==> outcomes[i],
    ensures
        place(stage_after(outcomes)) == outcomes.len(),
        stage_after(outcomes) matches ProposalStage::ReportMoves { built } ==> built,
    decreases outcomes.len(),
{
    if outcomes.len() > 0 {
        lemma_success(outcomes.drop_last());
    }
}

/// How the store moved is reported whether or not the block could be built.
pub proof fn law_moves_are_always_reported(built: bool)
    ensures
        ProposalStage::Build.after(built) == (ProposalStage::ReportMoves { built }),
        (ProposalStage::ReportMoves { built: false }).after(true) == ProposalStage::Failed,
{
}

/// A block that waited for its slot as told is not published before the slot begins, and one
/// that is late does not wait.
pub proof fn law_never_published_early(proposal: Proposal, now_ms: int)
    ensures
        now_ms + proposal.time_to_slot(now_ms) >= proposal.slot_start_ms,
        now_ms >= proposal.slot_start_ms ==> proposal.time_to_slot(now_ms) == 0,
        now_ms < proposal.slot_start_ms ==> now_ms + proposal.time_to_slot(now_ms)
            == proposal.slot_start_ms,
{
}

} // verus!
