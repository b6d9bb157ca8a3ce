//! The same protocol driven through the host-facing trait.

use accountable_safety::AccountableSafety;
use accountable_safety::machine::{AccountableSafetyHandler, StateView};
use accountable_safety::types::{
    Commit, Precommit, ResponseKind, ResponseRecord, Signature, Validity, Vote,
};

fn commit(round: u64, hash: u64, voters: &[u64]) -> Commit {
    let mut precommits = Vec::new();
    for &v in voters {
        precommits.push(Precommit {
            validator: v,
            vote: Vote { target_hash: hash, target_number: 10 },
        });
    }
    Commit { round, target_hash: hash, target_number: 10, precommits }
}

#[test]
fn trait_entry_points_drive_a_full_investigation() {
    let mut m = AccountableSafetyHandler::new();
    assert_eq!(m.state(), StateView::Idle);
    let a = commit(5, 100, &[1]);
    let b = commit(5, 200, &[2]);
    assert_eq!(m.start_accountable_safety_protocol(a, b, 0), Ok(()));
    let rec = ResponseRecord {
        kind: ResponseKind::Precommits,
        signature: Signature { signer: 1, round: 5 },
        votes: vec![Vote { target_hash: 100, target_number: 10 }],
        cites: vec![2],
    };
    assert_eq!(m.add_response(1, 5, rec), Ok(Validity::Valid));
    let rec = ResponseRecord {
        kind: ResponseKind::Prevotes,
        signature: Signature { signer: 2, round: 5 },
        votes: vec![Vote { target_hash: 200, target_number: 10 }],
        cites: vec![],
    };
    assert_eq!(m.add_prevote_response(2, 5, rec), Ok(Validity::Valid));
    assert_eq!(m.update(1), Ok(()));
    assert_eq!(m.state(), StateView::Concluded { culprits: vec![] });
}
