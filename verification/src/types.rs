//! Plain data carried through the investigation: votes, commits, responses,
//! and the error taxonomy of the protocol's call boundary.

use vstd::prelude::*;

verus! {

/// How many units of host progress (block heights, ticks) the validators of a
/// queried round are given to answer before silence counts as delinquency.
pub const QUERY_WINDOW: u64 = 10;

/// One vote (prevote or precommit) for a block, identified by hash and height.
#[derive(Clone, Copy, Debug, PartialEq, Eq, Structural)]
pub struct Vote {
    pub target_hash: u64,
    pub target_number: u64,
}

/// Evidence that a set of submitted votes was produced by `signer` for
/// `round`.  Cryptographic verification itself is a capability of the host;
/// what reaches this library is the already-checked binding.
#[derive(Clone, Copy, Debug, PartialEq, Eq, Structural)]
pub struct Signature {
    pub signer: u64,
    pub round: u64,
}

/// Which kind of votes a response carries.
#[derive(Clone, Copy, Debug, PartialEq, Eq, Structural)]
pub enum ResponseKind {
    Prevotes,
    Precommits,
}

/// A validator's answer to a query: its own votes for the queried round,
/// together with the validators whose prevotes in the preceding round those
/// votes rest on.  An empty citation list means the votes rest on the agreed
/// base chain and need no further justification.
#[derive(Clone, Debug, PartialEq, Eq)]
pub struct ResponseRecord {
    pub kind: ResponseKind,
    pub signature: Signature,
    pub votes: Vec<Vote>,
    pub cites: Vec<u64>,
}

/// One precommit of a commit message: the voter plus the vote it signed.
#[derive(Clone, Copy, Debug, PartialEq, Eq, Structural)]
pub struct Precommit {
    pub validator: u64,
    pub vote: Vote,
}

/// A claimed justification for finalizing one block in one round.
#[derive(Clone, Debug, PartialEq, Eq)]
pub struct Commit {
    pub round: u64,
    pub target_hash: u64,
    pub target_number: u64,
    pub precommits: Vec<Precommit>,
}

/// Why a submitted response failed validation.  A failure here is not a
/// system fault: the record is kept as evidence of culpability.
#[derive(Clone, Copy, Debug, PartialEq, Eq, Structural)]
pub enum InvalidReason {
    BadSignature,
    WrongRound,
    Inconsistent,
    Malformed,
}

/// The verdict of the response validator on one record.
#[derive(Clone, Copy, Debug, PartialEq, Eq, Structural)]
pub enum Validity {
    Valid,
    Invalid(InvalidReason),
}

/// Protocol violations rejected at the call boundary (no state change), plus
/// the one fatal condition an investigation can surface.
#[derive(Clone, Copy, Debug, PartialEq, Eq, Structural)]
pub enum Error {
    /// `start` was called while an investigation is already running.
    AlreadyActive,
    /// The two reported commits finalize the same block: nothing to do.
    NotConflicting,
    /// A response arrived while no investigation is active.
    NoActiveInvestigation,
    /// The responding validator was not queried for that round.
    NotQueried,
    /// The validator already answered (or was already marked delinquent)
    /// for that round.
    DuplicateResponse,
    /// A query for that round is already open.
    RoundAlreadyQueried,
    /// The earliest possible round closed, yet its responses still cite
    /// unjustified prevotes: the supplied commits are inconsistent at a
    /// deeper level and an operator must look at the record.
    EvidenceGap,
}

/// The record's own votes name two different blocks: the responder voted for
/// two incompatible things within the one queried round.
pub open spec fn equivocating(rec: ResponseRecord) -> bool {
    exists|i: int, j: int|
        0 <= i < rec.votes@.len() && 0 <= j < rec.votes@.len()
            && rec.votes@[i].target_hash != rec.votes@[j].target_hash
}

/// Exec check for `equivocating`: every vote either names the first vote's
/// block, or two incompatible targets exist.
pub fn votes_equivocate(votes: &Vec<Vote>) -> (b: bool)
    ensures
        b == exists|i: int, j: int|
            0 <= i < votes@.len() && 0 <= j < votes@.len()
                && votes@[i].target_hash != votes@[j].target_hash,
{
    if votes.len() == 0 {
        return false;
    }
    let first = votes[0].target_hash;
    let mut k: usize = 0;
    while k < votes.len()
        invariant
            0 < votes@.len(),
            k <= votes@.len(),
            first == votes@[0].target_hash,
            forall|i: int| 0 <= i < k ==> votes@[i].target_hash == first,
        decreases votes@.len() - k,
    {
        if votes[k].target_hash != first {
            return true;
        }
        k += 1;
    }
    false
}

} // verus!
