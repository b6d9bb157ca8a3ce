//! The response validator: a stateless check of one submitted record against
//! the round it answers.
//!
//! Validity failure is not a system fault — an invalid record is meaningful
//! output (candidate culprit evidence) and is stored by the caller, not
//! discarded.

use vstd::prelude::*;
use crate::types::{ResponseRecord, ResponseKind, Validity, InvalidReason};

verus! {

/// The citation list names some validator twice.
pub open spec fn has_duplicate(s: Seq<u64>) -> bool {
    exists|i: int, j: int| 0 <= i < j < s.len() && s[i] == s[j]
}

/// What the validator concludes about a record submitted by `validator` for
/// `round`.  Checks are applied in a fixed order so the recorded reason is
/// deterministic:
/// - `Malformed`: no votes at all, or precommits offered to a query that
///   specifically calls for prevotes;
/// - `BadSignature`: the evidence was signed by someone other than the
///   responding validator;
/// - `WrongRound`: the evidence binds the votes to a different round than the
///   one queried — a mismatch is rejected, never silently coerced;
/// - `Inconsistent`: a precommit response citing no justifying prevotes at
///   all, or a citation list naming the same validator twice.
pub open spec fn spec_validate(
    validator: u64,
    round: u64,
    prevotes_only: bool,
    rec: ResponseRecord,
) -> Validity {
    if rec.votes@.len() == 0 || (prevotes_only && rec.kind is Precommits) {
        Validity::Invalid(InvalidReason::Malformed)
    } else if rec.signature.signer != validator {
        Validity::Invalid(InvalidReason::BadSignature)
    } else if rec.signature.round != round {
        Validity::Invalid(InvalidReason::WrongRound)
    } else if (rec.kind is Precommits && rec.cites@.len() == 0) || has_duplicate(rec.cites@) {
        Validity::Invalid(InvalidReason::Inconsistent)
    } else {
        Validity::Valid
    }
}

/// Exec check for `has_duplicate`.
fn cites_have_duplicate(cites: &Vec<u64>) -> (b: bool)
    ensures
        b == has_duplicate(cites@),
{
    let mut i: usize = 0;
    while i < cites.len()
        invariant
            i <= cites@.len(),
            forall|a: int, b: int| 0 <= a < b < i ==> cites@[a] != cites@[b],
        decreases cites@.len() - i,
    {
        let mut j: usize = 0;
        while j < i
            invariant
                j <= i,
                i < cites@.len(),
                forall|a: int, b: int| 0 <= a < b < i ==> cites@[a] != cites@[b],
                forall|a: int| 0 <= a < j ==> cites@[a] != cites@[i as int],
            decreases i - j,
        {
            if cites[j] == cites[i] {
                return true;
            }
            j += 1;
        }
        i += 1;
    }
    false
}

/// Validate one submitted record.  The result is exactly `spec_validate`.
pub fn validate_response(
    validator: u64,
    round: u64,
    prevotes_only: bool,
    rec: &ResponseRecord,
) -> (v: Validity)
    ensures
        v == spec_validate(validator, round, prevotes_only, *rec),
{
    if rec.votes.len() == 0 || (prevotes_only && matches!(rec.kind, ResponseKind::Precommits)) {
        Validity::Invalid(InvalidReason::Malformed)
    } else if rec.signature.signer != validator {
        Validity::Invalid(InvalidReason::BadSignature)
    } else if rec.signature.round != round {
        Validity::Invalid(InvalidReason::WrongRound)
    } else if (matches!(rec.kind, ResponseKind::Precommits) && rec.cites.len() == 0)
        || cites_have_duplicate(&rec.cites) {
        Validity::Invalid(InvalidReason::Inconsistent)
    } else {
        Validity::Valid
    }
}

} // verus!
