//! The investigation state machine: the orchestrator that seeds an
//! investigation from a pair of conflicting commits, decides which round to
//! query next, folds in validated responses, and determines termination.
//!
//! The machine walks `Idle -> Active -> Concluded`.  While active it keeps a
//! contiguous, strictly decreasing chain of queried rounds, starting from the
//! round of the conflicting finalization; only the most recently opened round
//! can still be open or unprocessed.  The justification rule adopted here:
//! a valid response for round `r` cites the validators whose prevotes its
//! votes rest on; a cited validator whose prevotes are not already on record
//! (through a valid prevote-kind answer in the closing round itself) must be
//! queried at round `r - 1`, and an empty remainder ends the chain.

use vstd::prelude::*;
use crate::types::{
    Commit, Precommit, ResponseRecord, Validity, Error, equivocating, votes_equivocate,
    QUERY_WINDOW,
};
use crate::culprits::CulpritSet;
use crate::registry::{
    QueryRegistry, QueryState, QueryEntry, ResponseStatus, has_round, round_index, has_validator,
    entry_index, queried_set, pending_entries, mark_delinquent_seq, all_answered, round_position,
    query_state_wf,
};
use crate::response::{spec_validate, validate_response};
use crate::ordset::{strictly_sorted, insert_sorted};

verus! {

/// Where the machine stands.
#[derive(Clone, Copy, Debug, PartialEq, Eq, Structural)]
pub enum Phase {
    Idle,
    Active,
    Concluded,
}

/// The single aggregate record of an in-progress investigation.
#[derive(Clone, Debug, PartialEq, Eq)]
pub struct Investigation {
    /// Height of the block that was finalized but not included.
    pub block_not_included: u64,
    /// The round whose conflicting finalization is under investigation; the
    /// chain of queried rounds starts here and walks strictly downwards.
    pub round_for_block_not_included: u64,
    /// The commit claimed as justification for the block not included.
    pub commit_for_block_not_included: Commit,
    /// Open and closed round queries, in the order they were opened.
    pub registry: QueryRegistry,
    /// Culprits accumulated from the rounds processed so far.
    pub culprits: CulpritSet,
}

/// The read-only view of the machine handed to the worker collaborator.
#[derive(Clone, Debug, PartialEq, Eq)]
pub enum StateView {
    Idle,
    /// The round currently under query and the validators still owing a
    /// response, in ascending order.
    Active { round: u64, outstanding: Vec<u64> },
    /// The finalized, identity-ordered culprit list.
    Concluded { culprits: Vec<u64> },
}

/// The accountable-safety state machine.
#[derive(Clone, Debug, PartialEq, Eq)]
pub struct AccountableSafetyHandler {
    pub phase: Phase,
    /// Meaningful while `phase` is `Active`; kept afterwards as the archived
    /// record of the concluded investigation.
    pub investigation: Investigation,
    /// Meaningful once `phase` is `Concluded`.
    pub outcome: CulpritSet,
}

/// The validator identities of a commit's precommits, in commit order.
pub open spec fn commit_validators(c: Commit) -> Seq<u64> {
    c.precommits@.map_values(|p: Precommit| p.validator)
}

/// The commit whose round is lower (the first one on a tie): the side whose
/// block was finalized but not included.
pub open spec fn lower_commit(c1: Commit, c2: Commit) -> Commit {
    if c2.round < c1.round {
        c2
    } else {
        c1
    }
}

/// The voters implicated by the conflict: the precommitters of the commit(s)
/// at the lower of the two rounds.
pub open spec fn initial_voters(c1: Commit, c2: Commit) -> Seq<u64> {
    if c1.round < c2.round {
        commit_validators(c1)
    } else if c2.round < c1.round {
        commit_validators(c2)
    } else {
        commit_validators(c1) + commit_validators(c2)
    }
}

/// The deadline a query opened at height `now` gets.
pub open spec fn spec_deadline(now: u64) -> u64 {
    if now + QUERY_WINDOW > u64::MAX {
        u64::MAX
    } else {
        (now + QUERY_WINDOW) as u64
    }
}

/// Saturating deadline computation.
pub fn deadline_after(now: u64) -> (d: u64)
    ensures
        d == spec_deadline(now),
{
    if now >= u64::MAX - QUERY_WINDOW {
        u64::MAX
    } else {
        now + QUERY_WINDOW
    }
}

/// The entry holds a validated answer.
pub open spec fn is_valid_answer(e: QueryEntry) -> bool {
    e.status matches ResponseStatus::Answered(_, Validity::Valid)
}

/// The record inside an answered entry.
pub open spec fn answer_of(e: QueryEntry) -> ResponseRecord {
    e.status->Answered_0
}

/// Whether this entry incriminates its validator: it never answered, its
/// answer failed validation, or its (valid) answer exposes a double vote.
pub open spec fn entry_culpable(e: QueryEntry) -> bool {
    ||| e.status is Delinquent
    ||| e.status matches ResponseStatus::Answered(_, Validity::Invalid(_))
    ||| (is_valid_answer(e) && equivocating(answer_of(e)))
}

/// The culprits a closed round contributes.
pub open spec fn round_culprits(es: Seq<QueryEntry>) -> Set<u64> {
    Set::new(
        |v: u64|
            exists|k: int|
                0 <= k < es.len() && (#[trigger] es[k]).validator == v && entry_culpable(es[k]),
    )
}

/// Some valid answer in the round directly exposes an equivocation.
pub open spec fn round_has_equivocator(es: Seq<QueryEntry>) -> bool {
    exists|k: int|
        0 <= k < es.len() && is_valid_answer(#[trigger] es[k]) && equivocating(answer_of(es[k]))
}

/// `v`'s prevotes are already on record in this round: it gave a valid
/// answer of prevote kind.
pub open spec fn known_prevoter(es: Seq<QueryEntry>, v: u64) -> bool {
    exists|k: int|
        0 <= k < es.len() && (#[trigger] es[k]).validator == v && is_valid_answer(es[k])
            && answer_of(es[k]).kind is Prevotes
}

/// `v`'s prevotes are cited as justification by some valid answer.
pub open spec fn cited(es: Seq<QueryEntry>, v: u64) -> bool {
    exists|k: int|
        0 <= k < es.len() && is_valid_answer(#[trigger] es[k]) && answer_of(es[k]).cites@.contains(
            v,
        )
}

/// The validators whose votes still need justifying once the round closes:
/// cited, and their prevotes not already on record.
pub open spec fn need_set(es: Seq<QueryEntry>) -> Set<u64> {
    Set::new(|v: u64| cited(es, v) && !known_prevoter(es, v))
}

/// Every validator queried in any round of the investigation.
pub open spec fn queried_all(inv: Investigation) -> Set<u64> {
    Set::new(
        |v: u64|
            exists|i: int|
                0 <= i < inv.registry.rounds@.len() && has_validator(
                    (#[trigger] inv.registry.rounds@[i]).entries@,
                    v,
                ),
    )
}

/// The invariant of an active investigation.
pub open spec fn inv_wf(inv: Investigation) -> bool {
    let rs = inv.registry.rounds@;
    let r0 = inv.round_for_block_not_included;
    &&& inv.registry.wf()
    &&& rs.len() >= 1
    &&& rs.len() <= r0 + 1
    &&& forall|i: int| 0 <= i < rs.len() ==> (#[trigger] rs[i]).round == r0 - i
    &&& forall|i: int| 0 <= i < rs.len() - 1 ==> (#[trigger] rs[i]).closed
    &&& forall|i: int| 0 <= i < rs.len() ==> (#[trigger] rs[i]).prevotes_only == (i != 0)
    &&& inv.culprits.wf()
    &&& inv.culprits@.to_set() <= queried_all(inv)
}

impl AccountableSafetyHandler {
    /// Well-formedness every operation preserves.
    pub open spec fn wf(self) -> bool {
        &&& self.phase is Active ==> inv_wf(self.investigation)
        &&& self.outcome.wf()
    }

    /// A fresh machine with no investigation.
    pub fn new() -> (m: AccountableSafetyHandler)
        ensures
            m.wf(),
            m.phase is Idle,
    {
        AccountableSafetyHandler {
            phase: Phase::Idle,
            investigation: Investigation {
                block_not_included: 0,
                round_for_block_not_included: 0,
                commit_for_block_not_included: Commit {
                    round: 0,
                    target_hash: 0,
                    target_number: 0,
                    precommits: Vec::new(),
                },
                registry: QueryRegistry::new(),
                culprits: CulpritSet::new(),
            },
            outcome: CulpritSet::new(),
        }
    }
    /// Initiate the accountable safety protocol for a reported pair of
    /// conflicting commits.
    ///
    /// Fails with `AlreadyActive` unless the machine is idle, and with
    /// `NotConflicting` when the two commits finalize the same block.
    /// Otherwise it seeds the investigation from the commit at the lower of
    /// the two rounds and opens a query addressed to that round's voters.
    pub fn start(&mut self, first: Commit, second: Commit, now: u64) -> (r: Result<(), Error>)
        requires
            old(self).wf(),
        ensures
            final(self).wf(),
            !(old(self).phase is Idle) ==> r == Err::<(), Error>(Error::AlreadyActive)
                && *final(self) == *old(self),
            old(self).phase is Idle && first.target_hash == second.target_hash ==> r == Err::<
                (),
                Error,
            >(Error::NotConflicting) && *final(self) == *old(self),
            old(self).phase is Idle && first.target_hash != second.target_hash ==> {
                let lower = lower_commit(first, second);
                let inv = final(self).investigation;
                let rs = inv.registry.rounds@;
                &&& r == Ok::<(), Error>(())
                &&& final(self).phase is Active
                &&& final(self).outcome == old(self).outcome
                &&& inv.round_for_block_not_included == lower.round
                &&& inv.block_not_included == lower.target_number
                &&& inv.commit_for_block_not_included == lower
                &&& inv.culprits@ == Seq::<u64>::empty()
                &&& rs.len() == 1
                &&& rs[0].round == lower.round
                &&& !rs[0].prevotes_only
                &&& rs[0].deadline == spec_deadline(now)
                &&& forall|k: int|
                    0 <= k < rs[0].entries@.len()
                        ==> (#[trigger] rs[0].entries@[k]).status is Pending
                &&& strictly_sorted(rs[0].entries@.map_values(|e: QueryEntry| e.validator))
                &&& queried_set(rs[0].entries@) == initial_voters(first, second).to_set()
                &&& rs[0].closed == (initial_voters(first, second).to_set() == Set::<
                    u64,
                >::empty())
            },
    {
        match self.phase {
            Phase::Idle => {},
            _ => {
                return Err(Error::AlreadyActive);
            },
        }
        if first.target_hash == second.target_hash {
            return Err(Error::NotConflicting);
        }
        broadcast use vstd::prelude::Seq::lemma_push_to_set_commute;

        let mut voters: Vec<u64> = Vec::new();
        if first.round <= second.round {
            let mut k: usize = 0;
            while k < first.precommits.len()
                invariant
                    k <= first.precommits@.len(),
                    strictly_sorted(voters@),
                    voters@.to_set() == commit_validators(first).take(k as int).to_set(),
                decreases first.precommits@.len() - k,
            {
                insert_sorted(&mut voters, first.precommits[k].validator);
                proof {
                    let cv = commit_validators(first);
                    assert(cv[k as int] == first.precommits@[k as int].validator);
                    assert(cv.take(k + 1) =~= cv.take(k as int).push(cv[k as int]));
                    cv.take(k as int).lemma_push_to_set_commute(cv[k as int]);
                    assert(cv.take(k + 1).to_set() == cv.take(k as int).to_set().insert(
                        cv[k as int],
                    ));
                }
                k += 1;
            }
            proof {
                assert(commit_validators(first).take(first.precommits@.len() as int)
                    =~= commit_validators(first));
            }
        }
        if second.round <= first.round {
            let ghost base = voters@.to_set();
            let mut k: usize = 0;
            while k < second.precommits.len()
                invariant
                    k <= second.precommits@.len(),
                    strictly_sorted(voters@),
                    voters@.to_set() == base + commit_validators(second).take(k as int).to_set(),
                decreases second.precommits@.len() - k,
            {
                insert_sorted(&mut voters, second.precommits[k].validator);
                proof {
                    let cv = commit_validators(second);
                    assert(cv[k as int] == second.precommits@[k as int].validator);
                    assert(cv.take(k + 1) =~= cv.take(k as int).push(cv[k as int]));
                    cv.take(k as int).lemma_push_to_set_commute(cv[k as int]);
                    assert(cv.take(k + 1).to_set() == cv.take(k as int).to_set().insert(
                        cv[k as int],
                    ));
                    assert(base + cv.take(k as int).to_set().insert(cv[k as int]) =~= (base
                        + cv.take(k as int).to_set()).insert(cv[k as int]));
                }
                k += 1;
            }
            proof {
                assert(commit_validators(second).take(second.precommits@.len() as int)
                    =~= commit_validators(second));
            }
        }
        proof {
            if first.round < second.round {
                assert(voters@.to_set() =~= initial_voters(first, second).to_set());
            } else if second.round < first.round {
                assert(commit_validators(second).to_set() =~= initial_voters(
                    first,
                    second,
                ).to_set()) by {
                    assert(initial_voters(first, second) == commit_validators(second));
                }
                assert(voters@.to_set() =~= initial_voters(first, second).to_set());
            } else {
                let a = commit_validators(first);
                let b = commit_validators(second);
                assert(initial_voters(first, second) == a + b);
                assert forall|v: u64| (a + b).to_set().contains(v) implies (a.to_set()
                    + b.to_set()).contains(v) by {
                    let i = choose|i: int| 0 <= i < (a + b).len() && (a + b)[i] == v;
                    if i < a.len() {
                        assert(a[i] == v);
                    } else {
                        assert(b[i - a.len()] == v);
                    }
                }
                assert forall|v: u64| (a.to_set() + b.to_set()).contains(v) implies (a
                    + b).to_set().contains(v) by {
                    if a.to_set().contains(v) {
                        let i = choose|i: int| 0 <= i < a.len() && a[i] == v;
                        assert((a + b)[i] == v);
                    } else {
                        let i = choose|i: int| 0 <= i < b.len() && b[i] == v;
                        assert((a + b)[a.len() + i] == v);
                    }
                }
                assert((a + b).to_set() =~= a.to_set() + b.to_set());
                assert(voters@.to_set() =~= initial_voters(first, second).to_set());
            }
        }
        let ghost voter_ids = voters@;
        let r0 = if first.round <= second.round {
            first.round
        } else {
            second.round
        };
        let deadline = deadline_after(now);
        let n_voters = voters.len();
        let mut registry = QueryRegistry::new();
        let opened = registry.open(r0, voters, false, deadline);
        proof {
            assert(!has_round(Seq::<QueryState>::empty(), r0));
            assert(opened is Ok);
        }
        let lower = if second.round < first.round {
            second
        } else {
            first
        };
        let block_not_included = lower.target_number;
        let round_for_block_not_included = r0;
        self.investigation = Investigation {
            block_not_included,
            round_for_block_not_included,
            commit_for_block_not_included: lower,
            registry,
            culprits: CulpritSet::new(),
        };
        self.phase = Phase::Active;
        proof {
            let inv = final(self).investigation;
            let rs = inv.registry.rounds@;
            let es = rs[0].entries@;
            assert(es == pending_entries(voter_ids));
            assert(forall|k: int|
                0 <= k < es.len() ==> (#[trigger] es[k]) == (QueryEntry {
                    validator: voter_ids[k],
                    status: ResponseStatus::Pending,
                }));
            assert(es.map_values(|e: QueryEntry| e.validator) =~= voter_ids);
            assert forall|v: u64| queried_set(es).contains(v) implies voter_ids.to_set().contains(
                v,
            ) by {
                let k = choose|k: int| 0 <= k < es.len() && es[k].validator == v;
                assert(voter_ids[k] == v);
            }
            assert forall|v: u64| voter_ids.to_set().contains(v) implies queried_set(es).contains(
                v,
            ) by {
                let k = choose|k: int| 0 <= k < voter_ids.len() && voter_ids[k] == v;
                assert(es[k].validator == v);
            }
            assert(queried_set(es) =~= voter_ids.to_set());
            if rs[0].closed {
                assert(voter_ids.len() == 0);
                assert(voter_ids.to_set() =~= Set::<u64>::empty());
            } else {
                assert(voter_ids.len() > 0);
                assert(voter_ids.to_set().contains(voter_ids[0]));
                assert(voter_ids.to_set() != Set::<u64>::empty());
            }
            assert(inv.culprits@.to_set() =~= Set::<u64>::empty());
            assert(inv_wf(inv));
        }
        Ok(())
    }
}

/// What a response submission does, as a relation between the machine before
/// (`pre`) and after (`post`) the call.
///
/// A response is rejected at the boundary — with no state change — when no
/// investigation is active, when the validator was not queried for the
/// round, or when something is already on record for it
/// (`DuplicateResponse`, which therefore never alters the culprit set).
/// Otherwise the record is validated and stored, valid or not, and the
/// round's closure flag is recomputed.
pub open spec fn submit_post(
    pre: AccountableSafetyHandler,
    post: AccountableSafetyHandler,
    validator: u64,
    round: u64,
    record: ResponseRecord,
    require_prevotes: bool,
    r: Result<Validity, Error>,
) -> bool {
    let rs = pre.investigation.registry.rounds@;
    let ri = round_index(rs, round);
    &&& post.wf()
    &&& !(pre.phase is Active) ==> r == Err::<Validity, Error>(Error::NoActiveInvestigation)
        && post == pre
    &&& pre.phase is Active && !has_round(rs, round) ==> r == Err::<Validity, Error>(
        Error::NotQueried,
    ) && post == pre
    &&& pre.phase is Active && has_round(rs, round) ==> {
        let es = rs[ri].entries@;
        let ei = entry_index(es, validator);
        &&& !has_validator(es, validator) ==> r == Err::<Validity, Error>(Error::NotQueried)
            && post == pre
        &&& has_validator(es, validator) && !(es[ei].status is Pending) ==> r == Err::<
            Validity,
            Error,
        >(Error::DuplicateResponse) && post == pre
        &&& has_validator(es, validator) && es[ei].status is Pending ==> {
            let vd = spec_validate(
                validator,
                round,
                require_prevotes || rs[ri].prevotes_only,
                record,
            );
            let es2 = es.update(
                ei,
                QueryEntry { validator, status: ResponseStatus::Answered(record, vd) },
            );
            &&& r == Ok::<Validity, Error>(vd)
            &&& post.phase is Active
            &&& post.outcome == pre.outcome
            &&& post.investigation.block_not_included == pre.investigation.block_not_included
            &&& post.investigation.round_for_block_not_included
                == pre.investigation.round_for_block_not_included
            &&& post.investigation.commit_for_block_not_included
                == pre.investigation.commit_for_block_not_included
            &&& post.investigation.culprits == pre.investigation.culprits
            &&& post.investigation.registry.rounds@.len() == rs.len()
            &&& forall|i: int|
                0 <= i < rs.len() && i != ri ==> post.investigation.registry.rounds@[i] == rs[i]
            &&& post.investigation.registry.rounds@[ri].round == rs[ri].round
            &&& post.investigation.registry.rounds@[ri].prevotes_only == rs[ri].prevotes_only
            &&& post.investigation.registry.rounds@[ri].deadline == rs[ri].deadline
            &&& post.investigation.registry.rounds@[ri].entries@ == es2
            &&& post.investigation.registry.rounds@[ri].closed == all_answered(es2)
        }
    }
}

impl AccountableSafetyHandler {
    /// Shared intake for both submission entry points.
    fn submit_inner(
        &mut self,
        validator: u64,
        round: u64,
        record: ResponseRecord,
        require_prevotes: bool,
    ) -> (r: Result<Validity, Error>)
        requires
            old(self).wf(),
        ensures
            submit_post(*old(self), *final(self), validator, round, record, require_prevotes, r),
    {
        match self.phase {
            Phase::Active => {},
            _ => {
                return Err(Error::NoActiveInvestigation);
            },
        }
        let i: usize = match round_position(&self.investigation.registry.rounds, round) {
            None => {
                return Err(Error::NotQueried);
            },
            Some(i) => i,
        };
        proof {
            self.investigation.registry.lemma_round_index_is(round, i as int);
        }
        let prevotes_only = require_prevotes || self.investigation.registry.rounds[i].prevotes_only;
        let verdict = validate_response(validator, round, prevotes_only, &record);
        let res = self.investigation.registry.mark_responded(round, validator, record, verdict);
        match res {
            Err(e) => Err(e),
            Ok(()) => {
                proof {
                    let pre_inv = old(self).investigation;
                    let rs = pre_inv.registry.rounds@;
                    let ri = i as int;
                    let es = rs[ri].entries@;
                    let ei = entry_index(es, validator);
                    let post_inv = final(self).investigation;
                    let es2 = post_inv.registry.rounds@[ri].entries@;
                    assert(has_validator(es, validator));
                    assert(es[ei].status is Pending);
                    assert(es[ei].validator == validator);
                    assert(forall|k: int|
                        0 <= k < es2.len() ==> (#[trigger] es2[k]).validator == es[k].validator);
                    assert forall|v: u64| queried_all(post_inv).contains(v) implies queried_all(
                        pre_inv,
                    ).contains(v) by {
                        let i2 = choose|i2: int|
                            0 <= i2 < post_inv.registry.rounds@.len() && has_validator(
                                post_inv.registry.rounds@[i2].entries@,
                                v,
                            );
                        if i2 == ri {
                            let k = choose|k: int|
                                0 <= k < es2.len() && es2[k].validator == v;
                            assert(es[k].validator == v);
                            assert(has_validator(rs[ri].entries@, v));
                        } else {
                            assert(post_inv.registry.rounds@[i2] == rs[i2]);
                        }
                    }
                    assert forall|v: u64| queried_all(pre_inv).contains(v) implies queried_all(
                        post_inv,
                    ).contains(v) by {
                        let i2 = choose|i2: int|
                            0 <= i2 < rs.len() && has_validator(rs[i2].entries@, v);
                        if i2 == ri {
                            let k = choose|k: int| 0 <= k < es.len() && es[k].validator == v;
                            assert(es2[k].validator == v);
                            assert(has_validator(post_inv.registry.rounds@[ri].entries@, v));
                        } else {
                            assert(post_inv.registry.rounds@[i2] == rs[i2]);
                        }
                    }
                    assert(queried_all(post_inv) =~= queried_all(pre_inv));
                    assert(query_state_wf(rs[ri]));
                    assert(!all_answered(es)) by {
                        assert(es[ei].status is Pending);
                    }
                    assert(!rs[ri].closed);
                    assert(ri == rs.len() - 1);
                    let prs = post_inv.registry.rounds@;
                    let r0 = pre_inv.round_for_block_not_included;
                    assert forall|i2: int| 0 <= i2 < prs.len() implies (#[trigger] prs[i2]).round
                        == r0 - i2 by {
                        if i2 != ri {
                            assert(prs[i2] == rs[i2]);
                        }
                    }
                    assert forall|i2: int|
                        0 <= i2 < prs.len() - 1 implies (#[trigger] prs[i2]).closed by {
                        assert(prs[i2] == rs[i2]);
                    }
                    assert forall|i2: int|
                        0 <= i2 < prs.len() implies (#[trigger] prs[i2]).prevotes_only == (i2
                        != 0) by {
                        if i2 != ri {
                            assert(prs[i2] == rs[i2]);
                        }
                    }
                    assert(inv_wf(post_inv));
                }
                Ok(verdict)
            },
        }
    }

    /// Submit a response to a query where the reply can carry either
    /// prevotes or precommits.
    pub fn submit_response(
        &mut self,
        validator: u64,
        round: u64,
        record: ResponseRecord,
    ) -> (r: Result<Validity, Error>)
        requires
            old(self).wf(),
        ensures
            submit_post(*old(self), *final(self), validator, round, record, false, r),
    {
        self.submit_inner(validator, round, record, false)
    }

    /// Submit a response to a query which specifically calls for prevotes:
    /// a precommit-kind record is recorded as malformed evidence.
    pub fn submit_prevote_response(
        &mut self,
        validator: u64,
        round: u64,
        record: ResponseRecord,
    ) -> (r: Result<Validity, Error>)
        requires
            old(self).wf(),
        ensures
            submit_post(*old(self), *final(self), validator, round, record, true, r),
    {
        self.submit_inner(validator, round, record, true)
    }
}

/// The culprits found among the first `n` entries of a round.
pub open spec fn round_culprits_upto(es: Seq<QueryEntry>, n: int) -> Set<u64> {
    Set::new(
        |v: u64|
            exists|k: int|
                0 <= k < n && k < es.len() && (#[trigger] es[k]).validator == v && entry_culpable(
                    es[k],
                ),
    )
}

/// An equivocation exposed among the first `n` entries of a round.
pub open spec fn has_equivocator_upto(es: Seq<QueryEntry>, n: int) -> bool {
    exists|k: int|
        0 <= k < n && k < es.len() && is_valid_answer(#[trigger] es[k]) && equivocating(
            answer_of(es[k]),
        )
}

/// `v` is cited among the first `n` entries of a round.
pub open spec fn cited_upto(es: Seq<QueryEntry>, n: int, v: u64) -> bool {
    exists|k: int|
        0 <= k < n && k < es.len() && is_valid_answer(#[trigger] es[k]) && answer_of(
            es[k],
        ).cites@.contains(v)
}

/// The need set gathered from the first `n` entries.
pub open spec fn need_upto(es: Seq<QueryEntry>, n: int) -> Set<u64> {
    Set::new(|v: u64| cited_upto(es, n, v) && !known_prevoter(es, v))
}

proof fn lemma_culprits_upto_step(es: Seq<QueryEntry>, k: int)
    requires
        0 <= k < es.len(),
    ensures
        entry_culpable(es[k]) ==> round_culprits_upto(es, k + 1) == round_culprits_upto(
            es,
            k,
        ).insert(es[k].validator),
        !entry_culpable(es[k]) ==> round_culprits_upto(es, k + 1) == round_culprits_upto(es, k),
{
    if entry_culpable(es[k]) {
        let rhs = round_culprits_upto(es, k).insert(es[k].validator);
        assert forall|v: u64| round_culprits_upto(es, k + 1).contains(v) implies rhs.contains(
            v,
        ) by {
            let k2 = choose|k2: int|
                0 <= k2 < k + 1 && k2 < es.len() && es[k2].validator == v && entry_culpable(
                    es[k2],
                );
            if k2 < k {
                assert(round_culprits_upto(es, k).contains(v));
            }
        }
        assert forall|v: u64| rhs.contains(v) implies round_culprits_upto(es, k + 1).contains(
            v,
        ) by {
            if v == es[k].validator {
                assert(0 <= k < k + 1 && es[k].validator == v && entry_culpable(es[k]));
            } else {
                let k2 = choose|k2: int|
                    0 <= k2 < k && k2 < es.len() && es[k2].validator == v && entry_culpable(
                        es[k2],
                    );
                assert(0 <= k2 < k + 1 && es[k2].validator == v && entry_culpable(es[k2]));
            }
        }
        assert(round_culprits_upto(es, k + 1) =~= rhs);
    } else {
        assert forall|v: u64| round_culprits_upto(es, k + 1).contains(v) implies round_culprits_upto(
            es,
            k,
        ).contains(v) by {
            let k2 = choose|k2: int|
                0 <= k2 < k + 1 && k2 < es.len() && es[k2].validator == v && entry_culpable(
                    es[k2],
                );
            assert(k2 < k);
        }
        assert forall|v: u64| round_culprits_upto(es, k).contains(v) implies round_culprits_upto(
            es,
            k + 1,
        ).contains(v) by {
            let k2 = choose|k2: int|
                0 <= k2 < k && k2 < es.len() && es[k2].validator == v && entry_culpable(es[k2]);
            assert(0 <= k2 < k + 1 && es[k2].validator == v && entry_culpable(es[k2]));
        }
        assert(round_culprits_upto(es, k + 1) =~= round_culprits_upto(es, k));
    }
}

/// Whether one entry incriminates its validator.
fn entry_is_culpable(e: &QueryEntry) -> (b: bool)
    ensures
        b == entry_culpable(*e),
{
    match &e.status {
        ResponseStatus::Pending => false,
        ResponseStatus::Delinquent => true,
        ResponseStatus::Answered(_, Validity::Invalid(_)) => true,
        ResponseStatus::Answered(rec, Validity::Valid) => votes_equivocate(&rec.votes),
    }
}

/// Whether one entry holds a valid answer exposing a double vote.
fn entry_is_equivocation(e: &QueryEntry) -> (b: bool)
    ensures
        b == (is_valid_answer(*e) && equivocating(answer_of(*e))),
{
    match &e.status {
        ResponseStatus::Answered(rec, Validity::Valid) => votes_equivocate(&rec.votes),
        _ => false,
    }
}

/// One pass over a closed round's entries: the culprits it contributes
/// (sorted, deduplicated) and whether any valid answer exposes an
/// equivocation.
fn scan_round(es: &Vec<QueryEntry>) -> (out: (Vec<u64>, bool))
    ensures
        strictly_sorted(out.0@),
        out.0@.to_set() == round_culprits(es@),
        out.1 == round_has_equivocator(es@),
{
    let mut culp: Vec<u64> = Vec::new();
    let mut has_eq = false;
    let mut k: usize = 0;
    proof {
        assert(round_culprits_upto(es@, 0) =~= Set::<u64>::empty());
    }
    while k < es.len()
        invariant
            k <= es@.len(),
            strictly_sorted(culp@),
            culp@.to_set() == round_culprits_upto(es@, k as int),
            has_eq == has_equivocator_upto(es@, k as int),
        decreases es@.len() - k,
    {
        if entry_is_culpable(&es[k]) {
            insert_sorted(&mut culp, es[k].validator);
        }
        if entry_is_equivocation(&es[k]) {
            has_eq = true;
        }
        proof {
            lemma_culprits_upto_step(es@, k as int);
            if has_equivocator_upto(es@, k as int + 1) && !has_equivocator_upto(es@, k as int) {
                let k2 = choose|k2: int|
                    0 <= k2 < k as int + 1 && k2 < es@.len() && is_valid_answer(es@[k2])
                        && equivocating(answer_of(es@[k2]));
                assert(k2 == k as int);
            }
        }
        k += 1;
    }
    proof {
        assert(culp@.to_set() =~= round_culprits(es@));
        if round_has_equivocator(es@) {
            let k2 = choose|k2: int|
                0 <= k2 < es@.len() && is_valid_answer(es@[k2]) && equivocating(
                    answer_of(es@[k2]),
                );
            assert(has_equivocator_upto(es@, es@.len() as int));
        }
    }
    (culp, has_eq)
}

/// Whether `v` already put its prevotes on record in this round.
fn is_known_prevoter(es: &Vec<QueryEntry>, v: u64) -> (b: bool)
    ensures
        b == known_prevoter(es@, v),
{
    let mut k: usize = 0;
    while k < es.len()
        invariant
            k <= es@.len(),
            forall|k2: int|
                0 <= k2 < k ==> !((#[trigger] es@[k2]).validator == v && is_valid_answer(es@[k2])
                    && answer_of(es@[k2]).kind is Prevotes),
        decreases es@.len() - k,
    {
        if es[k].validator == v {
            match &es[k].status {
                ResponseStatus::Answered(rec, Validity::Valid) => {
                    match rec.kind {
                        crate::types::ResponseKind::Prevotes => {
                            return true;
                        },
                        _ => {},
                    }
                },
                _ => {},
            }
        }
        k += 1;
    }
    false
}

/// Gather the validators whose votes still need justifying once a round
/// closes: every citation of a valid answer whose prevotes are not already
/// on record, sorted and deduplicated.
fn collect_need(es: &Vec<QueryEntry>) -> (need: Vec<u64>)
    ensures
        strictly_sorted(need@),
        need@.to_set() == need_set(es@),
{
    let mut need: Vec<u64> = Vec::new();
    let mut k: usize = 0;
    proof {
        assert(need_upto(es@, 0) =~= Set::<u64>::empty());
    }
    while k < es.len()
        invariant
            k <= es@.len(),
            strictly_sorted(need@),
            need@.to_set() == need_upto(es@, k as int),
        decreases es@.len() - k,
    {
        let is_valid = match &es[k].status {
            ResponseStatus::Answered(_, Validity::Valid) => true,
            _ => false,
        };
        if is_valid {
            let ghost cs = answer_of(es@[k as int]).cites@;
            let n_cites = match &es[k].status {
                ResponseStatus::Answered(rec, _) => rec.cites.len(),
                _ => 0,
            };
            let mut j: usize = 0;
            proof {
                assert(cs.take(0) =~= Seq::<u64>::empty());
                assert(need_upto(es@, k as int) + Set::new(
                    |v: u64| cs.take(0).contains(v) && !known_prevoter(es@, v),
                ) =~= need_upto(es@, k as int));
            }
            while j < n_cites
                invariant
                    j <= n_cites,
                    k < es@.len(),
                    is_valid_answer(es@[k as int]),
                    cs == answer_of(es@[k as int]).cites@,
                    n_cites == cs.len(),
                    strictly_sorted(need@),
                    need@.to_set() == need_upto(es@, k as int) + Set::new(
                        |v: u64| cs.take(j as int).contains(v) && !known_prevoter(es@, v),
                    ),
                decreases n_cites - j,
            {
                let c = match &es[k].status {
                    ResponseStatus::Answered(rec, _) => rec.cites[j],
                    _ => 0,
                };
                assert(c == cs[j as int]);
                let known = is_known_prevoter(es, c);
                if !known {
                    insert_sorted(&mut need, c);
                }
                proof {
                    let pre = Set::new(
                        |v: u64| cs.take(j as int).contains(v) && !known_prevoter(es@, v),
                    );
                    let post = Set::new(
                        |v: u64| cs.take(j as int + 1).contains(v) && !known_prevoter(es@, v),
                    );
                    assert(cs.take(j as int + 1) =~= cs.take(j as int).push(c));
                    assert forall|v: u64| post.contains(v) implies (pre.contains(v) || (v == c
                        && !known_prevoter(es@, v))) by {
                        let t = cs.take(j as int + 1);
                        let idx = choose|idx: int| 0 <= idx < t.len() && t[idx] == v;
                        if idx < j as int {
                            assert(cs.take(j as int)[idx] == v);
                        }
                    }
                    if known {
                        assert forall|v: u64| pre.contains(v) implies post.contains(v) by {
                            let t = cs.take(j as int);
                            let idx = choose|idx: int| 0 <= idx < t.len() && t[idx] == v;
                            assert(cs.take(j as int + 1)[idx] == v);
                        }
                        assert(need_upto(es@, k as int) + pre =~= need_upto(es@, k as int)
                            + post);
                    } else {
                        assert forall|v: u64| (need_upto(es@, k as int) + post).contains(
                            v,
                        ) implies (need_upto(es@, k as int) + pre).insert(c).contains(v) by {
                            if post.contains(v) && v != c {
                                assert(pre.contains(v));
                            }
                        }
                        assert forall|v: u64| (need_upto(es@, k as int) + pre).insert(c).contains(
                            v,
                        ) implies (need_upto(es@, k as int) + post).contains(v) by {
                            if v == c {
                                assert(cs.take(j as int + 1)[j as int] == c);
                                assert(post.contains(c));
                            } else if pre.contains(v) {
                                let t = cs.take(j as int);
                                let idx = choose|idx: int| 0 <= idx < t.len() && t[idx] == v;
                                assert(cs.take(j as int + 1)[idx] == v);
                            }
                        }
                        assert(need_upto(es@, k as int) + post =~= (need_upto(es@, k as int)
                            + pre).insert(c));
                    }
                }
                j += 1;
            }
            proof {
                assert(cs.take(n_cites as int) =~= cs);
                let inner = Set::new(|v: u64| cs.contains(v) && !known_prevoter(es@, v));
                assert(need@.to_set() == need_upto(es@, k as int) + inner);
                assert forall|v: u64| need_upto(es@, k as int + 1).contains(v) implies (need_upto(
                    es@,
                    k as int,
                ) + inner).contains(v) by {
                    let k2 = choose|k2: int|
                        0 <= k2 < k as int + 1 && k2 < es@.len() && is_valid_answer(es@[k2])
                            && answer_of(es@[k2]).cites@.contains(v);
                    if k2 < k as int {
                        assert(cited_upto(es@, k as int, v));
                    }
                }
                assert forall|v: u64| (need_upto(es@, k as int) + inner).contains(
                    v,
                ) implies need_upto(es@, k as int + 1).contains(v) by {
                    if need_upto(es@, k as int).contains(v) {
                        let k2 = choose|k2: int|
                            0 <= k2 < k as int && k2 < es@.len() && is_valid_answer(es@[k2])
                                && answer_of(es@[k2]).cites@.contains(v);
                        assert(cited_upto(es@, k as int + 1, v));
                    } else {
                        assert(is_valid_answer(es@[k as int]) && answer_of(
                            es@[k as int],
                        ).cites@.contains(v));
                        assert(cited_upto(es@, k as int + 1, v));
                    }
                }
                assert(need@.to_set() =~= need_upto(es@, k as int + 1));
            }
        } else {
            proof {
                assert forall|v: u64| need_upto(es@, k as int + 1).contains(v) implies need_upto(
                    es@,
                    k as int,
                ).contains(v) by {
                    let k2 = choose|k2: int|
                        0 <= k2 < k as int + 1 && k2 < es@.len() && is_valid_answer(es@[k2])
                            && answer_of(es@[k2]).cites@.contains(v);
                    assert(k2 != k as int);
                    assert(cited_upto(es@, k as int, v));
                }
                assert forall|v: u64| need_upto(es@, k as int).contains(v) implies need_upto(
                    es@,
                    k as int + 1,
                ).contains(v) by {
                    let k2 = choose|k2: int|
                        0 <= k2 < k as int && k2 < es@.len() && is_valid_answer(es@[k2])
                            && answer_of(es@[k2]).cites@.contains(v);
                    assert(cited_upto(es@, k as int + 1, v));
                }
                assert(need_upto(es@, k as int + 1) =~= need_upto(es@, k as int));
            }
        }
        k += 1;
    }
    proof {
        assert forall|v: u64| need_set(es@).contains(v) implies need_upto(
            es@,
            es@.len() as int,
        ).contains(v) by {
            let k2 = choose|k2: int|
                0 <= k2 < es@.len() && is_valid_answer(es@[k2]) && answer_of(
                    es@[k2],
                ).cites@.contains(v);
            assert(cited_upto(es@, es@.len() as int, v));
        }
        assert forall|v: u64| need_upto(es@, es@.len() as int).contains(v) implies need_set(
            es@,
        ).contains(v) by {
            let k2 = choose|k2: int|
                0 <= k2 < es@.len() && is_valid_answer(es@[k2]) && answer_of(
                    es@[k2],
                ).cites@.contains(v);
            assert(cited(es@, v));
        }
        assert(need@.to_set() =~= need_set(es@));
    }
    need
}

/// What one progress tick does, as a relation between the machine before
/// (`pre`) and after (`post`) the call.
///
/// A tick performs at most one step of progress, and is idempotent when no
/// step is available: with no investigation active, or with the current
/// round still open and its deadline not reached, the state is left
/// bit-for-bit unchanged.  When the deadline has passed, the still-pending
/// validators of the current round are marked delinquent and the round
/// closes.  When the current round is closed, the round-advancement rule is
/// applied: its culprits (invalid answers, delinquents, exposed double
/// voters) are folded into the accumulator; then, if a double vote was
/// exposed or nothing remains to justify, the machine concludes without
/// opening any further round, and the archived culprit set — always a subset
/// of the queried validators — becomes the outcome; if justification is
/// still owed and a prior round exists, a prevote query for the next lower
/// round is opened, addressed exactly to the validators owing it; if none
/// exists, the machine reports the evidence gap and refuses to conclude.
/// Internal advancement can never surface `RoundAlreadyQueried`.
pub open spec fn tick_post(
    pre: AccountableSafetyHandler,
    post: AccountableSafetyHandler,
    now: u64,
    r: Result<(), Error>,
) -> bool {
    let inv = pre.investigation;
    let rs = inv.registry.rounds@;
    let li = rs.len() - 1;
    let last = rs[li];
    let es = last.entries@;
    &&& post.wf()
    &&& r is Ok || r == Err::<(), Error>(Error::EvidenceGap)
    &&& !(pre.phase is Active) ==> r == Ok::<(), Error>(()) && post == pre
    &&& pre.phase is Active && !last.closed && now < last.deadline ==> r == Ok::<(), Error>(())
        && post == pre
    &&& pre.phase is Active && !last.closed && now >= last.deadline ==> {
        &&& r == Ok::<(), Error>(())
        &&& post.phase is Active
        &&& post.outcome == pre.outcome
        &&& post.investigation.block_not_included == inv.block_not_included
        &&& post.investigation.round_for_block_not_included
            == inv.round_for_block_not_included
        &&& post.investigation.commit_for_block_not_included
            == inv.commit_for_block_not_included
        &&& post.investigation.culprits == inv.culprits
        &&& post.investigation.registry.rounds@.len() == rs.len()
        &&& forall|i: int| 0 <= i < li ==> post.investigation.registry.rounds@[i] == rs[i]
        &&& post.investigation.registry.rounds@[li].round == last.round
        &&& post.investigation.registry.rounds@[li].prevotes_only == last.prevotes_only
        &&& post.investigation.registry.rounds@[li].deadline == last.deadline
        &&& post.investigation.registry.rounds@[li].entries@ == mark_delinquent_seq(es)
        &&& post.investigation.registry.rounds@[li].closed
    }
    &&& pre.phase is Active && last.closed ==> {
        let culp2 = inv.culprits@.to_set() + round_culprits(es);
        &&& (round_has_equivocator(es) || need_set(es) == Set::<u64>::empty()) ==> {
            &&& r == Ok::<(), Error>(())
            &&& post.phase is Concluded
            &&& post.outcome@.to_set() == culp2
            &&& strictly_sorted(post.outcome@)
            &&& culp2 <= queried_all(inv)
            &&& post.investigation.registry == inv.registry
            &&& post.investigation.culprits@.to_set() == culp2
        }
        &&& !round_has_equivocator(es) && need_set(es) != Set::<u64>::empty() && last.round > 0
            ==> {
            let prs = post.investigation.registry.rounds@;
            &&& r == Ok::<(), Error>(())
            &&& post.phase is Active
            &&& post.outcome == pre.outcome
            &&& post.investigation.block_not_included == inv.block_not_included
            &&& post.investigation.round_for_block_not_included
                == inv.round_for_block_not_included
            &&& post.investigation.commit_for_block_not_included
                == inv.commit_for_block_not_included
            &&& post.investigation.culprits@.to_set() == culp2
            &&& prs.len() == rs.len() + 1
            &&& forall|i: int| 0 <= i < rs.len() ==> prs[i] == rs[i]
            &&& prs.last().round == last.round - 1
            &&& prs.last().prevotes_only
            &&& prs.last().deadline == spec_deadline(now)
            &&& !prs.last().closed
            &&& forall|k: int|
                0 <= k < prs.last().entries@.len()
                    ==> (#[trigger] prs.last().entries@[k]).status is Pending
            &&& strictly_sorted(prs.last().entries@.map_values(|e: QueryEntry| e.validator))
            &&& queried_set(prs.last().entries@) == need_set(es)
        }
        &&& !round_has_equivocator(es) && need_set(es) != Set::<u64>::empty() && last.round == 0
            ==> r == Err::<(), Error>(Error::EvidenceGap) && post == pre
    }
}

impl AccountableSafetyHandler {
    /// The periodic progress tick, driven once per unit of host progress
    /// (`now` is the host's current height).
    pub fn tick(&mut self, now: u64) -> (r: Result<(), Error>)
        requires
            old(self).wf(),
        ensures
            tick_post(*old(self), *final(self), now, r),
    {
        match self.phase {
            Phase::Active => {},
            _ => {
                return Ok(());
            },
        }
        let ghost pre_inv = old(self).investigation;
        let ghost rs = pre_inv.registry.rounds@;
        let ghost li_g = rs.len() - 1;
        let li = self.investigation.registry.rounds.len() - 1;
        let last_closed = self.investigation.registry.rounds[li].closed;
        if !last_closed {
            let deadline = self.investigation.registry.rounds[li].deadline;
            if now < deadline {
                return Ok(());
            }
            let round = self.investigation.registry.rounds[li].round;
            proof {
                self.investigation.registry.lemma_round_index_is(round, li as int);
            }
            let res = self.investigation.registry.mark_delinquent(round);
            proof {
                assert(res is Ok);
                let post_inv = final(self).investigation;
                let es = rs[li_g].entries@;
                let es2 = post_inv.registry.rounds@[li_g].entries@;
                assert(es2 == mark_delinquent_seq(es));
                assert(forall|k: int|
                    0 <= k < es2.len() ==> (#[trigger] es2[k]).validator == es[k].validator);
                assert forall|v: u64| queried_all(post_inv).contains(v) implies queried_all(
                    pre_inv,
                ).contains(v) by {
                    let i2 = choose|i2: int|
                        0 <= i2 < post_inv.registry.rounds@.len() && has_validator(
                            post_inv.registry.rounds@[i2].entries@,
                            v,
                        );
                    if i2 == li_g {
                        let k = choose|k: int| 0 <= k < es2.len() && es2[k].validator == v;
                        assert(es[k].validator == v);
                        assert(has_validator(rs[li_g].entries@, v));
                    } else {
                        assert(post_inv.registry.rounds@[i2] == rs[i2]);
                    }
                }
                assert forall|v: u64| queried_all(pre_inv).contains(v) implies queried_all(
                    post_inv,
                ).contains(v) by {
                    let i2 = choose|i2: int|
                        0 <= i2 < rs.len() && has_validator(rs[i2].entries@, v);
                    if i2 == li_g {
                        let k = choose|k: int| 0 <= k < es.len() && es[k].validator == v;
                        assert(es2[k].validator == v);
                        assert(has_validator(post_inv.registry.rounds@[li_g].entries@, v));
                    } else {
                        assert(post_inv.registry.rounds@[i2] == rs[i2]);
                    }
                }
                assert(queried_all(post_inv) =~= queried_all(pre_inv));
                let prs = post_inv.registry.rounds@;
                let r0 = pre_inv.round_for_block_not_included;
                assert forall|i2: int| 0 <= i2 < prs.len() implies (#[trigger] prs[i2]).round == r0
                    - i2 by {
                    if i2 != li_g {
                        assert(prs[i2] == rs[i2]);
                    }
                }
                assert forall|i2: int|
                    0 <= i2 < prs.len() - 1 implies (#[trigger] prs[i2]).closed by {
                    assert(prs[i2] == rs[i2]);
                }
                assert forall|i2: int|
                    0 <= i2 < prs.len() implies (#[trigger] prs[i2]).prevotes_only == (i2
                    != 0) by {
                    if i2 != li_g {
                        assert(prs[i2] == rs[i2]);
                    }
                }
                assert(inv_wf(post_inv));
            }
            return Ok(());
        }
        // The current round is closed: apply the round-advancement rule.
        let (culp_add, has_eq) = scan_round(&self.investigation.registry.rounds[li].entries);
        let need = collect_need(&self.investigation.registry.rounds[li].entries);
        let round = self.investigation.registry.rounds[li].round;
        let ghost es = rs[li_g].entries@;
        proof {
            if need@.len() == 0 {
                assert forall|v: u64| !need_set(es).contains(v) by {
                    assert(!need@.to_set().contains(v));
                }
                assert(need_set(es) =~= Set::<u64>::empty());
            } else {
                assert(need@.to_set().contains(need@[0]));
                assert(need_set(es).contains(need@[0]));
            }
        }
        if !has_eq && need.len() > 0 && round == 0 {
            return Err(Error::EvidenceGap);
        }
        // Fold this round's culprits into the accumulator.
        let ghost culps0 = pre_inv.culprits@.to_set();
        let n_add = culp_add.len();
        let mut k: usize = 0;
        proof {
            assert(culp_add@.take(0).to_set() =~= Set::<u64>::empty());
            assert(culps0 + culp_add@.take(0).to_set() =~= culps0);
        }
        while k < n_add
            invariant
                k <= n_add,
                n_add == culp_add@.len(),
                self.phase == old(self).phase,
                self.outcome == old(self).outcome,
                self.investigation.block_not_included == pre_inv.block_not_included,
                self.investigation.round_for_block_not_included
                    == pre_inv.round_for_block_not_included,
                self.investigation.commit_for_block_not_included
                    == pre_inv.commit_for_block_not_included,
                self.investigation.registry == pre_inv.registry,
                self.investigation.culprits.wf(),
                self.investigation.culprits@.to_set() == culps0 + culp_add@.take(
                    k as int,
                ).to_set(),
            decreases n_add - k,
        {
            let v = culp_add[k];
            self.investigation.culprits.insert(v);
            proof {
                assert(culp_add@.take(k as int + 1) =~= culp_add@.take(k as int).push(v));
                culp_add@.take(k as int).lemma_push_to_set_commute(v);
                assert((culps0 + culp_add@.take(k as int).to_set()).insert(v) =~= culps0
                    + culp_add@.take(k as int + 1).to_set());
            }
            k += 1;
        }
        proof {
            assert(culp_add@.take(n_add as int) =~= culp_add@);
            assert(self.investigation.culprits@.to_set() == culps0 + round_culprits(es));
            // This round's culprits were all queried in this round.
            assert forall|v: u64| round_culprits(es).contains(v) implies queried_all(
                pre_inv,
            ).contains(v) by {
                let k2 = choose|k2: int|
                    0 <= k2 < es.len() && es[k2].validator == v && entry_culpable(es[k2]);
                assert(has_validator(rs[li_g].entries@, v));
            }
        }
        if has_eq || need.len() == 0 {
            let out = self.investigation.culprits.snapshot();
            self.outcome = out;
            self.phase = Phase::Concluded;
            return Ok(());
        }
        // Open the query for the prior round, addressed to the validators
        // whose votes still need justifying.
        let dl = deadline_after(now);
        let prev = round - 1;
        let ghost need_ids = need@;
        let n_need = need.len();
        proof {
            let r0 = pre_inv.round_for_block_not_included;
            assert(rs[li_g].round == r0 - li_g);
            assert forall|i2: int|
                0 <= i2 < self.investigation.registry.rounds@.len()
                    implies (#[trigger] self.investigation.registry.rounds@[i2]).round
                != prev by {
                assert(self.investigation.registry.rounds@[i2].round == r0 - i2);
            }
            assert(!has_round(self.investigation.registry.rounds@, prev));
        }
        let res = self.investigation.registry.open(prev, need, true, dl);
        proof {
            assert(res is Ok);
            let post_inv = final(self).investigation;
            let prs = post_inv.registry.rounds@;
            let r0 = pre_inv.round_for_block_not_included;
            let nes = prs.last().entries@;
            assert(nes == pending_entries(need_ids));
            assert(forall|k2: int|
                0 <= k2 < nes.len() ==> (#[trigger] nes[k2]) == (QueryEntry {
                    validator: need_ids[k2],
                    status: ResponseStatus::Pending,
                }));
            assert(nes.map_values(|e: QueryEntry| e.validator) =~= need_ids);
            assert forall|v: u64| queried_set(nes).contains(v) implies need_ids.to_set().contains(
                v,
            ) by {
                let k2 = choose|k2: int| 0 <= k2 < nes.len() && nes[k2].validator == v;
                assert(need_ids[k2] == v);
            }
            assert forall|v: u64| need_ids.to_set().contains(v) implies queried_set(nes).contains(
                v,
            ) by {
                let k2 = choose|k2: int| 0 <= k2 < need_ids.len() && need_ids[k2] == v;
                assert(nes[k2].validator == v);
            }
            assert(queried_set(nes) =~= need_set(es));
            assert(n_need > 0);
            assert(!prs.last().closed);
            assert forall|i2: int| 0 <= i2 < prs.len() implies (#[trigger] prs[i2]).round == r0
                - i2 by {
                if i2 < rs.len() {
                    assert(prs[i2] == rs[i2]);
                } else {
                    assert(i2 == rs.len());
                    assert(prs[i2].round == prev);
                    assert(rs[li_g].round == r0 - li_g);
                }
            }
            assert forall|i2: int| 0 <= i2 < prs.len() - 1 implies (#[trigger] prs[i2]).closed by {
                assert(prs[i2] == rs[i2]);
                if i2 < rs.len() - 1 {
                } else {
                    assert(i2 == li_g);
                    assert(rs[li_g].closed);
                }
            }
            assert forall|i2: int| 0 <= i2 < prs.len() implies (#[trigger] prs[i2]).prevotes_only
                == (i2 != 0) by {
                if i2 < rs.len() {
                    assert(prs[i2] == rs[i2]);
                }
            }
            // The queried-validator universe only grows with the new round.
            assert forall|v: u64| queried_all(pre_inv).contains(v) implies queried_all(
                post_inv,
            ).contains(v) by {
                let i2 = choose|i2: int| 0 <= i2 < rs.len() && has_validator(rs[i2].entries@, v);
                assert(prs[i2] == rs[i2]);
                assert(has_validator(prs[i2].entries@, v));
            }
            assert(post_inv.culprits@.to_set() <= queried_all(post_inv));
            assert(rs.len() + 1 <= r0 + 1) by {
                assert(rs[li_g].round == r0 - li_g);
                assert(rs[li_g].round >= 1);
            }
            assert(inv_wf(post_inv));
        }
        Ok(())
    }
}

/// The validators of a round still owing a response.
pub open spec fn pending_set(es: Seq<QueryEntry>) -> Set<u64> {
    Set::new(
        |v: u64|
            exists|k: int|
                0 <= k < es.len() && (#[trigger] es[k]).validator == v && es[k].status is Pending,
    )
}

/// The pending validators among the first `n` entries.
pub open spec fn pending_upto(es: Seq<QueryEntry>, n: int) -> Set<u64> {
    Set::new(
        |v: u64|
            exists|k: int|
                0 <= k < n && k < es.len() && (#[trigger] es[k]).validator == v && es[k].status
                    is Pending,
    )
}

proof fn lemma_pending_upto_step(es: Seq<QueryEntry>, k: int)
    requires
        0 <= k < es.len(),
    ensures
        es[k].status is Pending ==> pending_upto(es, k + 1) == pending_upto(es, k).insert(
            es[k].validator,
        ),
        !(es[k].status is Pending) ==> pending_upto(es, k + 1) == pending_upto(es, k),
{
    if es[k].status is Pending {
        let rhs = pending_upto(es, k).insert(es[k].validator);
        assert forall|v: u64| pending_upto(es, k + 1).contains(v) implies rhs.contains(v) by {
            let k2 = choose|k2: int|
                0 <= k2 < k + 1 && k2 < es.len() && es[k2].validator == v && es[k2].status
                    is Pending;
            if k2 < k {
                assert(pending_upto(es, k).contains(v));
            }
        }
        assert forall|v: u64| rhs.contains(v) implies pending_upto(es, k + 1).contains(v) by {
            if v == es[k].validator {
                assert(es[k].validator == v && es[k].status is Pending);
            } else {
                let k2 = choose|k2: int|
                    0 <= k2 < k && k2 < es.len() && es[k2].validator == v && es[k2].status
                        is Pending;
                assert(es[k2].validator == v && es[k2].status is Pending);
            }
        }
        assert(pending_upto(es, k + 1) =~= rhs);
    } else {
        assert forall|v: u64| pending_upto(es, k + 1).contains(v) implies pending_upto(
            es,
            k,
        ).contains(v) by {
            let k2 = choose|k2: int|
                0 <= k2 < k + 1 && k2 < es.len() && es[k2].validator == v && es[k2].status
                    is Pending;
            assert(k2 < k);
        }
        assert forall|v: u64| pending_upto(es, k).contains(v) implies pending_upto(
            es,
            k + 1,
        ).contains(v) by {
            let k2 = choose|k2: int|
                0 <= k2 < k && k2 < es.len() && es[k2].validator == v && es[k2].status is Pending;
            assert(es[k2].validator == v && es[k2].status is Pending);
        }
        assert(pending_upto(es, k + 1) =~= pending_upto(es, k));
    }
}

impl AccountableSafetyHandler {
    /// The read-only view used by the worker collaborator to decide whether
    /// a response is owed: idle, active (with the round under query and the
    /// validators still owing an answer, ascending), or concluded (with the
    /// final culprit list).
    pub fn current_state(&self) -> (s: StateView)
        requires
            self.wf(),
        ensures
            self.phase is Idle ==> s == StateView::Idle,
            self.phase is Concluded ==> (s matches StateView::Concluded { culprits }
                && culprits@ == self.outcome@),
            self.phase is Active ==> ({
                let rs = self.investigation.registry.rounds@;
                let last = rs[rs.len() - 1];
                s matches StateView::Active { round, outstanding } && round == last.round
                    && strictly_sorted(outstanding@) && outstanding@.to_set() == pending_set(
                    last.entries@,
                )
            }),
    {
        match self.phase {
            Phase::Idle => StateView::Idle,
            Phase::Concluded => StateView::Concluded { culprits: self.outcome.finalize() },
            Phase::Active => {
                let li = self.investigation.registry.rounds.len() - 1;
                let round = self.investigation.registry.rounds[li].round;
                let es = &self.investigation.registry.rounds[li].entries;
                let mut outstanding: Vec<u64> = Vec::new();
                let mut k: usize = 0;
                proof {
                    assert(pending_upto(es@, 0) =~= Set::<u64>::empty());
                }
                while k < es.len()
                    invariant
                        k <= es@.len(),
                        strictly_sorted(outstanding@),
                        outstanding@.to_set() == pending_upto(es@, k as int),
                    decreases es@.len() - k,
                {
                    let pending = match &es[k].status {
                        ResponseStatus::Pending => true,
                        _ => false,
                    };
                    if pending {
                        insert_sorted(&mut outstanding, es[k].validator);
                    }
                    proof {
                        lemma_pending_upto_step(es@, k as int);
                    }
                    k += 1;
                }
                proof {
                    assert(outstanding@.to_set() =~= pending_set(es@));
                }
                StateView::Active { round, outstanding }
            },
        }
    }
}

/// No round is ever queried twice within one investigation: the rounds on
/// record carry pairwise distinct round numbers, so the registry's
/// duplicate-round rejection can only fire on outside misuse, never from the
/// machine's own advancement.
pub proof fn lemma_no_round_queried_twice(m: AccountableSafetyHandler)
    requires
        m.wf(),
        m.phase is Active,
    ensures
        forall|a: int, b: int|
            0 <= a < b < m.investigation.registry.rounds@.len()
                ==> m.investigation.registry.rounds@[a].round
                != m.investigation.registry.rounds@[b].round,
{
}

/// An investigation spans a bounded chain of rounds: they form the
/// contiguous, strictly decreasing suffix starting at the round under
/// investigation, so at most `round + 1` rounds can ever be queried, however
/// long the machine runs.
pub proof fn lemma_bounded_rounds(m: AccountableSafetyHandler)
    requires
        m.wf(),
        m.phase is Active,
    ensures
        m.investigation.registry.rounds@.len() <= m.investigation.round_for_block_not_included
            + 1,
        forall|i: int|
            0 <= i < m.investigation.registry.rounds@.len()
                ==> (#[trigger] m.investigation.registry.rounds@[i]).round
                == m.investigation.round_for_block_not_included - i,
{
}

/// The accumulated culprits are always a subset of the validators queried
/// across the investigation: no uninvolved validator can appear.
pub proof fn lemma_culprits_are_queried(m: AccountableSafetyHandler)
    requires
        m.wf(),
        m.phase is Active,
    ensures
        m.investigation.culprits@.to_set() <= queried_all(m.investigation),
{
}

} // verus!
