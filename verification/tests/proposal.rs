use ethlambda::chain::proposal::{
    resolve_merge_inputs, Proposal, ProposalStage, ProofSource, ResolveError, SignerKey,
};

fn run(outcomes: &[bool]) -> ProposalStage {
    let mut proposal = Proposal::new(7, 2, 10_000);
    for &outcome in outcomes {
        proposal.advance(outcome);
    }
    proposal.stage
}

#[test]
fn a_proposal_goes_through_all_stages() {
    let mut proposal = Proposal::new(7, 2, 10_000);
    let mut stages = Vec::new();
    while proposal.stage != ProposalStage::Done {
        stages.push(proposal.stage);
        proposal.advance(true);
    }
    assert_eq!(
        stages,
        vec![
            ProposalStage::Build,
            ProposalStage::ReportMoves { built: true },
            ProposalStage::SignRoot,
            ProposalStage::FindProposer,
            ProposalStage::DecodeKey,
            ProposalStage::DecodeSignature,
            ProposalStage::WrapSignature,
            ProposalStage::ResolveKeys,
            ProposalStage::Merge,
            ProposalStage::Assemble,
            ProposalStage::Align,
            ProposalStage::Import,
            ProposalStage::Publish,
        ]
    );
    proposal.advance(true);
    assert_eq!(proposal.stage, ProposalStage::Done);
    assert_eq!((proposal.slot, proposal.validator_id), (7, 2));
}

#[test]
fn moves_are_reported_even_if_the_build_failed() {
    assert_eq!(run(&[false]), ProposalStage::ReportMoves { built: false });
    assert_eq!(run(&[false, true]), ProposalStage::Failed);
    assert_eq!(run(&[true, false]), ProposalStage::SignRoot);
}

#[test]
fn a_failed_stage_ends_the_proposal() {
    for stage in [2usize, 3, 4, 5, 6, 7, 8, 9, 11] {
        let mut outcomes = vec![true; stage];
        outcomes.push(false);
        assert_eq!(run(&outcomes), ProposalStage::Failed, "stage {stage}");
        outcomes.push(true);
        assert_eq!(run(&outcomes), ProposalStage::Failed);
    }
}

#[test]
fn a_publication_that_fails_still_ends_the_proposal() {
    let mut outcomes = vec![true; 12];
    outcomes.push(false);
    assert_eq!(run(&outcomes), ProposalStage::Done);
}

#[test]
fn a_block_waits_for_its_slot() {
    let proposal = Proposal::new(7, 2, 10_000);
    assert_eq!(proposal.slot_start_ms, 38_000);
    assert_eq!(proposal.alignment_wait_ms(37_500), 500);
    assert_eq!(proposal.alignment_wait_ms(38_000), 0);
    assert_eq!(proposal.alignment_wait_ms(40_000), 0);
}

#[test]
fn a_proposer_must_be_a_validator() {
    let proposal = Proposal::new(7, 2, 10_000);
    assert!(!proposal.proposer_in_range(2));
    assert!(proposal.proposer_in_range(3));
}

#[test]
fn merge_inputs_end_with_the_proposer() {
    let inputs = resolve_merge_inputs(
        &vec![vec![0, 2], vec![1]],
        &vec![true, true, true],
        2,
    )
    .expect("all keys decode");
    assert_eq!(inputs.len(), 3);
    assert_eq!(
        inputs[0].keys,
        vec![SignerKey::Attestation(0), SignerKey::Attestation(2)]
    );
    assert_eq!(inputs[0].proof, ProofSource::Aggregate(0));
    assert_eq!(inputs[1].keys, vec![SignerKey::Attestation(1)]);
    assert_eq!(inputs[1].proof, ProofSource::Aggregate(1));
    assert_eq!(inputs[2].keys, vec![SignerKey::Proposal(2)]);
    assert_eq!(inputs[2].proof, ProofSource::Proposer);
}

#[test]
fn a_block_without_attestations_merges_the_proposer_alone() {
    let inputs = resolve_merge_inputs(&vec![], &vec![true], 0).expect("nothing to decode");
    assert_eq!(inputs.len(), 1);
    assert_eq!(inputs[0].proof, ProofSource::Proposer);
}

#[test]
fn the_first_fault_is_reported() {
    let decodes = vec![true, false, true];
    assert_eq!(
        resolve_merge_inputs(&vec![vec![0, 3], vec![1]], &decodes, 2).unwrap_err(),
        ResolveError::OutOfRange(3)
    );
    assert_eq!(
        resolve_merge_inputs(&vec![vec![0], vec![1, 3]], &decodes, 2).unwrap_err(),
        ResolveError::Undecodable(1)
    );
}
