//! The response validator's verdicts, the registry's boundary checks, and
//! the ordered-set building blocks.

use accountable_safety::culprits::CulpritSet;
use accountable_safety::machine::AccountableSafetyHandler;
use accountable_safety::ordset::{ids_contain, insert_sorted};
use accountable_safety::registry::QueryRegistry;
use accountable_safety::response::validate_response;
use accountable_safety::types::{
    Commit, Error, InvalidReason, Precommit, ResponseKind, ResponseRecord, Signature, Validity,
    Vote,
};

fn record(kind: ResponseKind, signer: u64, round: u64, votes: Vec<Vote>, cites: Vec<u64>)
    -> ResponseRecord {
    ResponseRecord { kind, signature: Signature { signer, round }, votes, cites }
}

fn one_vote() -> Vec<Vote> {
    vec![Vote { target_hash: 100, target_number: 10 }]
}

#[test]
fn bad_signature_is_reported() {
    let rec = record(ResponseKind::Precommits, 9, 5, one_vote(), vec![2]);
    assert_eq!(
        validate_response(1, 5, false, &rec),
        Validity::Invalid(InvalidReason::BadSignature)
    );
}

#[test]
fn wrong_round_is_rejected_not_coerced() {
    let rec = record(ResponseKind::Precommits, 1, 4, one_vote(), vec![2]);
    assert_eq!(
        validate_response(1, 5, false, &rec),
        Validity::Invalid(InvalidReason::WrongRound)
    );
}

#[test]
fn empty_votes_are_malformed() {
    let rec = record(ResponseKind::Prevotes, 1, 5, vec![], vec![]);
    assert_eq!(
        validate_response(1, 5, false, &rec),
        Validity::Invalid(InvalidReason::Malformed)
    );
}

#[test]
fn precommits_offered_to_a_prevote_query_are_malformed() {
    let rec = record(ResponseKind::Precommits, 1, 5, one_vote(), vec![2]);
    assert_eq!(
        validate_response(1, 5, true, &rec),
        Validity::Invalid(InvalidReason::Malformed)
    );
}

#[test]
fn precommit_response_without_citations_is_inconsistent() {
    let rec = record(ResponseKind::Precommits, 1, 5, one_vote(), vec![]);
    assert_eq!(
        validate_response(1, 5, false, &rec),
        Validity::Invalid(InvalidReason::Inconsistent)
    );
}

#[test]
fn duplicate_citations_are_inconsistent() {
    let rec = record(ResponseKind::Prevotes, 1, 5, one_vote(), vec![2, 3, 2]);
    assert_eq!(
        validate_response(1, 5, false, &rec),
        Validity::Invalid(InvalidReason::Inconsistent)
    );
}

#[test]
fn valid_response_passes_every_check() {
    let rec = record(ResponseKind::Prevotes, 1, 5, one_vote(), vec![]);
    assert_eq!(validate_response(1, 5, true, &rec), Validity::Valid);
    let rec = record(ResponseKind::Precommits, 1, 5, one_vote(), vec![2, 3]);
    assert_eq!(validate_response(1, 5, false, &rec), Validity::Valid);
}

#[test]
fn prevote_entry_point_refuses_precommits_even_on_the_first_round() {
    let a = Commit {
        round: 5,
        target_hash: 100,
        target_number: 10,
        precommits: vec![Precommit {
            validator: 1,
            vote: Vote { target_hash: 100, target_number: 10 },
        }],
    };
    let b = Commit {
        round: 5,
        target_hash: 200,
        target_number: 10,
        precommits: vec![Precommit {
            validator: 1,
            vote: Vote { target_hash: 200, target_number: 10 },
        }],
    };
    let mut m = AccountableSafetyHandler::new();
    assert_eq!(m.start(a, b, 0), Ok(()));
    let rec = record(ResponseKind::Precommits, 1, 5, one_vote(), vec![2]);
    assert_eq!(
        m.submit_prevote_response(1, 5, rec),
        Ok(Validity::Invalid(InvalidReason::Malformed))
    );
}

#[test]
fn registry_rejects_a_duplicate_round_only_on_misuse() {
    let mut reg = QueryRegistry::new();
    assert_eq!(reg.open(5, vec![1, 2], false, 10), Ok(()));
    assert_eq!(reg.open(5, vec![3], true, 10), Err(Error::RoundAlreadyQueried));
    assert_eq!(reg.open(4, vec![3], true, 10), Ok(()));
}

#[test]
fn culprit_set_orders_and_deduplicates() {
    let mut c = CulpritSet::new();
    c.insert(7);
    c.insert(3);
    c.insert(7);
    c.insert(5);
    assert_eq!(c.finalize(), vec![3, 5, 7]);
    assert_eq!(c.len(), 3);
    assert!(c.contains(5));
    assert!(!c.contains(4));
}

#[test]
fn sorted_insert_keeps_order_and_membership() {
    let mut v: Vec<u64> = Vec::new();
    insert_sorted(&mut v, 9);
    insert_sorted(&mut v, 1);
    insert_sorted(&mut v, 4);
    insert_sorted(&mut v, 9);
    assert_eq!(v, vec![1, 4, 9]);
    assert!(ids_contain(&v, 4));
    assert!(!ids_contain(&v, 2));
}
