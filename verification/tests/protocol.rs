//! End-to-end scenarios for the investigation state machine.

use accountable_safety::machine::{AccountableSafetyHandler, StateView};
use accountable_safety::types::{
    Commit, Error, InvalidReason, Precommit, ResponseKind, ResponseRecord, Signature, Validity,
    Vote,
};

fn commit(round: u64, hash: u64, number: u64, voters: &[u64]) -> Commit {
    let mut precommits = Vec::new();
    for &v in voters {
        precommits.push(Precommit {
            validator: v,
            vote: Vote { target_hash: hash, target_number: number },
        });
    }
    Commit { round, target_hash: hash, target_number: number, precommits }
}

fn precommit_response(signer: u64, round: u64, hash: u64, cites: Vec<u64>) -> ResponseRecord {
    ResponseRecord {
        kind: ResponseKind::Precommits,
        signature: Signature { signer, round },
        votes: vec![Vote { target_hash: hash, target_number: 1 }],
        cites,
    }
}

fn prevote_response(signer: u64, round: u64, hash: u64, cites: Vec<u64>) -> ResponseRecord {
    ResponseRecord {
        kind: ResponseKind::Prevotes,
        signature: Signature { signer, round },
        votes: vec![Vote { target_hash: hash, target_number: 1 }],
        cites,
    }
}

#[test]
fn investigation_reaches_conclusion_with_bad_signature_culprit() {
    // Commits at round 5 for two different blocks, with voters 1..=4.
    let a = commit(5, 100, 10, &[1, 2, 3, 4]);
    let b = commit(5, 200, 10, &[1, 2, 3, 4]);
    let mut m = AccountableSafetyHandler::new();
    assert_eq!(m.start(a, b, 0), Ok(()));
    assert_eq!(
        m.current_state(),
        StateView::Active { round: 5, outstanding: vec![1, 2, 3, 4] }
    );

    // Three voters answer with valid precommit responses citing the
    // round-4 prevoters 5, 6, 7; the fourth's evidence is signed by
    // someone else.
    for v in [1u64, 2, 3] {
        let r = m.submit_response(v, 5, precommit_response(v, 5, 100, vec![5, 6, 7]));
        assert_eq!(r, Ok(Validity::Valid));
    }
    let r = m.submit_response(4, 5, precommit_response(99, 5, 100, vec![5, 6, 7]));
    assert_eq!(r, Ok(Validity::Invalid(InvalidReason::BadSignature)));

    // Round 5 is closed; the tick folds in validator 4 and opens round 4
    // for the cited prevoters.
    assert_eq!(m.tick(1), Ok(()));
    assert_eq!(
        m.current_state(),
        StateView::Active { round: 4, outstanding: vec![5, 6, 7] }
    );

    // The round-4 chain resolves with no further equivocation.
    for v in [5u64, 6, 7] {
        let r = m.submit_prevote_response(v, 4, prevote_response(v, 4, 100, vec![]));
        assert_eq!(r, Ok(Validity::Valid));
    }
    assert_eq!(m.tick(2), Ok(()));
    assert_eq!(m.current_state(), StateView::Concluded { culprits: vec![4] });
}

#[test]
fn delinquent_validators_are_culpable() {
    let a = commit(5, 100, 10, &[1, 2, 3, 4]);
    let b = commit(5, 200, 10, &[1, 2, 3, 4]);
    let mut m = AccountableSafetyHandler::new();
    assert_eq!(m.start(a, b, 0), Ok(()));
    for v in [1u64, 2, 3] {
        let r = m.submit_response(v, 5, precommit_response(v, 5, 100, vec![5]));
        assert_eq!(r, Ok(Validity::Valid));
    }
    // Validator 4 never answers.  Before the deadline nothing moves.
    assert_eq!(m.tick(9), Ok(()));
    assert_eq!(
        m.current_state(),
        StateView::Active { round: 5, outstanding: vec![4] }
    );
    // At the deadline it is marked delinquent and the round closes.
    assert_eq!(m.tick(10), Ok(()));
    assert_eq!(m.tick(10), Ok(()));
    assert_eq!(
        m.current_state(),
        StateView::Active { round: 4, outstanding: vec![5] }
    );
    // The cited prevoter also stays silent past the new deadline.
    assert_eq!(m.tick(25), Ok(()));
    assert_eq!(m.tick(25), Ok(()));
    assert_eq!(m.current_state(), StateView::Concluded { culprits: vec![4, 5] });
}

#[test]
fn tick_is_idempotent_when_nothing_resolves() {
    let mut idle = AccountableSafetyHandler::new();
    let before = idle.clone();
    assert_eq!(idle.tick(0), Ok(()));
    assert_eq!(idle, before);

    let a = commit(5, 100, 10, &[1, 2]);
    let b = commit(5, 200, 10, &[1, 2]);
    let mut m = AccountableSafetyHandler::new();
    assert_eq!(m.start(a, b, 0), Ok(()));
    let before = m.clone();
    // The round is open and the deadline has not passed: ticking changes
    // nothing, however often it runs.
    assert_eq!(m.tick(3), Ok(()));
    assert_eq!(m.tick(9), Ok(()));
    assert_eq!(m, before);
}

#[test]
fn duplicate_response_is_rejected_without_any_change() {
    let a = commit(5, 100, 10, &[1, 2]);
    let b = commit(5, 200, 10, &[1, 2]);
    let mut m = AccountableSafetyHandler::new();
    assert_eq!(m.start(a, b, 0), Ok(()));
    let r = m.submit_response(1, 5, precommit_response(1, 5, 100, vec![2]));
    assert_eq!(r, Ok(Validity::Valid));
    let before = m.clone();
    let dup = m.submit_response(1, 5, precommit_response(1, 5, 200, vec![2]));
    assert_eq!(dup, Err(Error::DuplicateResponse));
    assert_eq!(m, before);
}

#[test]
fn concludes_without_prior_round_when_prevotes_already_known() {
    // Validator 2's prevotes arrive with its own answer, so validator 1's
    // citation of them is already justified: the machine concludes without
    // opening round 4.
    let a = commit(5, 100, 10, &[1]);
    let b = commit(5, 200, 10, &[2]);
    let mut m = AccountableSafetyHandler::new();
    assert_eq!(m.start(a, b, 0), Ok(()));
    assert_eq!(
        m.submit_response(1, 5, precommit_response(1, 5, 100, vec![2])),
        Ok(Validity::Valid)
    );
    assert_eq!(
        m.submit_response(2, 5, prevote_response(2, 5, 200, vec![])),
        Ok(Validity::Valid)
    );
    assert_eq!(m.tick(1), Ok(()));
    assert_eq!(m.current_state(), StateView::Concluded { culprits: vec![] });
    assert_eq!(m.investigation.registry.rounds.len(), 1);
}

#[test]
fn equivocation_concludes_immediately() {
    let a = commit(5, 100, 10, &[1]);
    let b = commit(5, 200, 10, &[1]);
    let mut m = AccountableSafetyHandler::new();
    assert_eq!(m.start(a, b, 0), Ok(()));
    // A well-formed, well-signed answer whose own votes name two blocks.
    let rec = ResponseRecord {
        kind: ResponseKind::Precommits,
        signature: Signature { signer: 1, round: 5 },
        votes: vec![
            Vote { target_hash: 100, target_number: 10 },
            Vote { target_hash: 200, target_number: 10 },
        ],
        cites: vec![2],
    };
    assert_eq!(m.submit_response(1, 5, rec), Ok(Validity::Valid));
    assert_eq!(m.tick(1), Ok(()));
    // Concluded at once, without querying round 4 for the citation.
    assert_eq!(m.current_state(), StateView::Concluded { culprits: vec![1] });
    assert_eq!(m.investigation.registry.rounds.len(), 1);
}

#[test]
fn start_rejects_commits_for_the_same_block() {
    let a = commit(5, 100, 10, &[1]);
    let b = commit(6, 100, 10, &[2]);
    let mut m = AccountableSafetyHandler::new();
    assert_eq!(m.start(a, b, 0), Err(Error::NotConflicting));
    assert_eq!(m.current_state(), StateView::Idle);
}

#[test]
fn start_rejects_second_investigation() {
    let a = commit(5, 100, 10, &[1]);
    let b = commit(5, 200, 10, &[1]);
    let mut m = AccountableSafetyHandler::new();
    assert_eq!(m.start(a, b, 0), Ok(()));
    let c = commit(7, 300, 12, &[2]);
    let d = commit(7, 400, 12, &[2]);
    assert_eq!(m.start(c, d, 1), Err(Error::AlreadyActive));
}

#[test]
fn responses_need_an_active_investigation_and_a_matching_query() {
    let mut m = AccountableSafetyHandler::new();
    let r = m.submit_response(1, 5, precommit_response(1, 5, 100, vec![2]));
    assert_eq!(r, Err(Error::NoActiveInvestigation));

    let a = commit(5, 100, 10, &[1, 2]);
    let b = commit(5, 200, 10, &[1, 2]);
    assert_eq!(m.start(a, b, 0), Ok(()));
    // Round 4 has not been queried.
    let r = m.submit_response(1, 4, precommit_response(1, 4, 100, vec![2]));
    assert_eq!(r, Err(Error::NotQueried));
    // Validator 9 was not queried for round 5.
    let r = m.submit_response(9, 5, precommit_response(9, 5, 100, vec![2]));
    assert_eq!(r, Err(Error::NotQueried));
}

#[test]
fn evidence_gap_at_the_earliest_round_is_surfaced_not_concluded() {
    // A conflict reported at round 0: there is no prior round to query,
    // yet the only answer still cites unjustified prevotes.
    let a = commit(0, 100, 10, &[1]);
    let b = commit(0, 200, 10, &[1]);
    let mut m = AccountableSafetyHandler::new();
    assert_eq!(m.start(a, b, 0), Ok(()));
    assert_eq!(
        m.submit_response(1, 0, precommit_response(1, 0, 100, vec![2])),
        Ok(Validity::Valid)
    );
    assert_eq!(m.tick(1), Err(Error::EvidenceGap));
    // The machine refuses to conclude and keeps surfacing the gap.
    assert_eq!(m.tick(2), Err(Error::EvidenceGap));
    match m.current_state() {
        StateView::Active { round, .. } => assert_eq!(round, 0),
        other => panic!("expected an active investigation, got {:?}", other),
    }
}

#[test]
fn chain_of_rounds_is_bounded_by_the_starting_round() {
    // Starting at round 2, the chain can reach at most rounds 2, 1, 0.
    let a = commit(2, 100, 10, &[1]);
    let b = commit(2, 200, 10, &[1]);
    let mut m = AccountableSafetyHandler::new();
    assert_eq!(m.start(a, b, 0), Ok(()));
    assert_eq!(
        m.submit_response(1, 2, precommit_response(1, 2, 100, vec![2])),
        Ok(Validity::Valid)
    );
    assert_eq!(m.tick(1), Ok(()));
    assert_eq!(
        m.submit_prevote_response(2, 1, prevote_response(2, 1, 100, vec![3])),
        Ok(Validity::Valid)
    );
    assert_eq!(m.tick(2), Ok(()));
    assert_eq!(
        m.submit_prevote_response(3, 0, prevote_response(3, 0, 100, vec![])),
        Ok(Validity::Valid)
    );
    assert_eq!(m.tick(3), Ok(()));
    assert_eq!(m.current_state(), StateView::Concluded { culprits: vec![] });
    assert_eq!(m.investigation.registry.rounds.len(), 3);
}

#[test]
fn invalid_evidence_is_stored_and_counts_as_culpability() {
    let a = commit(5, 100, 10, &[1, 2]);
    let b = commit(5, 200, 10, &[1, 2]);
    let mut m = AccountableSafetyHandler::new();
    assert_eq!(m.start(a, b, 0), Ok(()));
    assert_eq!(
        m.submit_response(1, 5, prevote_response(1, 5, 100, vec![])),
        Ok(Validity::Valid)
    );
    // Validator 2's evidence binds its votes to round 4: rejected as
    // evidence, accepted as a submission, and culpable once the round
    // closes.
    assert_eq!(
        m.submit_response(2, 5, prevote_response(2, 4, 200, vec![])),
        Ok(Validity::Invalid(InvalidReason::WrongRound))
    );
    assert_eq!(m.tick(1), Ok(()));
    assert_eq!(m.current_state(), StateView::Concluded { culprits: vec![2] });
}

#[test]
fn lower_round_commit_seeds_the_investigation() {
    let a = commit(3, 100, 10, &[1, 2]);
    let b = commit(5, 200, 12, &[3]);
    let mut m = AccountableSafetyHandler::new();
    assert_eq!(m.start(a, b, 0), Ok(()));
    assert_eq!(m.investigation.round_for_block_not_included, 3);
    assert_eq!(m.investigation.block_not_included, 10);
    assert_eq!(
        m.current_state(),
        StateView::Active { round: 3, outstanding: vec![1, 2] }
    );
}
