//! Per-round query bookkeeping: which validators have been asked to justify
//! their vote, what each one answered, and whether the round's query is
//! closed.  The registry applies no protocol judgment — validation and
//! round-advancement live with its callers.

use vstd::prelude::*;
use crate::types::{ResponseRecord, Validity, Error};

verus! {

/// What is on record for one queried validator.
#[derive(Clone, Debug, PartialEq, Eq)]
pub enum ResponseStatus {
    /// Queried, no answer yet.
    Pending,
    /// Answered; the record is kept together with the validator's verdict
    /// on it (an invalid record is evidence, not garbage).
    Answered(ResponseRecord, Validity),
    /// The deadline passed without an answer.
    Delinquent,
}

/// One queried validator and what is on record for it.
#[derive(Clone, Debug, PartialEq, Eq)]
pub struct QueryEntry {
    pub validator: u64,
    pub status: ResponseStatus,
}

/// The query opened for one round.
#[derive(Clone, Debug, PartialEq, Eq)]
pub struct QueryState {
    pub round: u64,
    /// Whether this query specifically calls for prevotes (every round after
    /// the first does).
    pub prevotes_only: bool,
    /// Host progress height at which unanswered queries become delinquent.
    pub deadline: u64,
    pub entries: Vec<QueryEntry>,
    /// Cached closure flag; the invariant ties it to `entries`.
    pub closed: bool,
}

/// The per-investigation collection of round queries.
#[derive(Clone, Debug, PartialEq, Eq)]
pub struct QueryRegistry {
    pub rounds: Vec<QueryState>,
}

/// No validator appears twice in one round's entries.
pub open spec fn entries_unique(es: Seq<QueryEntry>) -> bool {
    forall|a: int, b: int| 0 <= a < b < es.len() ==> es[a].validator != es[b].validator
}

/// Every queried validator has answered or been marked delinquent.
pub open spec fn all_answered(es: Seq<QueryEntry>) -> bool {
    forall|k: int| 0 <= k < es.len() ==> !(#[trigger] es[k].status is Pending)
}

/// A round's query is well formed: unique validators, and the cached flag
/// agrees with the closure condition.
pub open spec fn query_state_wf(qs: QueryState) -> bool {
    &&& entries_unique(qs.entries@)
    &&& qs.closed == all_answered(qs.entries@)
}

/// `v` is among the round's queried validators.
pub open spec fn has_validator(es: Seq<QueryEntry>, v: u64) -> bool {
    exists|k: int| 0 <= k < es.len() && es[k].validator == v
}

/// The position of `v` among the entries (meaningful under `has_validator`
/// together with `entries_unique`).
pub open spec fn entry_index(es: Seq<QueryEntry>, v: u64) -> int {
    choose|k: int| 0 <= k < es.len() && es[k].validator == v
}

/// The set of validators queried in one round.
pub open spec fn queried_set(es: Seq<QueryEntry>) -> Set<u64> {
    Set::new(|v: u64| has_validator(es, v))
}

/// Some round query with this round number exists.
pub open spec fn has_round(rs: Seq<QueryState>, round: u64) -> bool {
    exists|i: int| 0 <= i < rs.len() && rs[i].round == round
}

/// The position of the round's query (meaningful under `has_round` together
/// with round uniqueness).
pub open spec fn round_index(rs: Seq<QueryState>, round: u64) -> int {
    choose|i: int| 0 <= i < rs.len() && rs[i].round == round
}

/// The fresh entries for a newly opened query: everyone pending.
pub open spec fn pending_entries(vs: Seq<u64>) -> Seq<QueryEntry> {
    vs.map_values(|v: u64| QueryEntry { validator: v, status: ResponseStatus::Pending })
}

/// One entry after the deadline passed: pending becomes delinquent, anything
/// already on record stays.
pub open spec fn mark_entry(e: QueryEntry) -> QueryEntry {
    if e.status is Pending {
        QueryEntry { validator: e.validator, status: ResponseStatus::Delinquent }
    } else {
        e
    }
}

/// A whole round's entries after the deadline passed.
pub open spec fn mark_delinquent_seq(es: Seq<QueryEntry>) -> Seq<QueryEntry> {
    es.map_values(|e: QueryEntry| mark_entry(e))
}

/// The position of the query for `round`, if one exists.
pub fn round_position(rounds: &Vec<QueryState>, round: u64) -> (r: Option<usize>)
    ensures
        match r {
            Some(i) => i < rounds@.len() && rounds@[i as int].round == round,
            None => !has_round(rounds@, round),
        },
{
    let mut i: usize = 0;
    while i < rounds.len()
        invariant
            i <= rounds@.len(),
            forall|k: int| 0 <= k < i ==> rounds@[k].round != round,
        decreases rounds@.len() - i,
    {
        if rounds[i].round == round {
            return Some(i);
        }
        i += 1;
    }
    None
}

/// The position of `v` among a round's entries, if it was queried.
pub fn validator_position(es: &Vec<QueryEntry>, v: u64) -> (r: Option<usize>)
    ensures
        match r {
            Some(j) => j < es@.len() && es@[j as int].validator == v,
            None => !has_validator(es@, v),
        },
{
    let mut j: usize = 0;
    while j < es.len()
        invariant
            j <= es@.len(),
            forall|k: int| 0 <= k < j ==> es@[k].validator != v,
        decreases es@.len() - j,
    {
        if es[j].validator == v {
            return Some(j);
        }
        j += 1;
    }
    None
}

impl QueryRegistry {
    /// Rounds are pairwise distinct and each round's query is well formed.
    pub open spec fn wf(self) -> bool {
        &&& forall|a: int, b: int|
            0 <= a < b < self.rounds@.len() ==> self.rounds@[a].round != self.rounds@[b].round
        &&& forall|i: int| 0 <= i < self.rounds@.len() ==> query_state_wf(#[trigger] self.rounds@[i])
    }

    pub fn new() -> (r: QueryRegistry)
        ensures
            r.wf(),
            r.rounds@ == Seq::<QueryState>::empty(),
    {
        QueryRegistry { rounds: Vec::new() }
    }

    /// With distinct round numbers, any position holding `round` is the
    /// round's index.
    pub proof fn lemma_round_index_is(self, round: u64, i: int)
        requires
            self.wf(),
            0 <= i < self.rounds@.len(),
            self.rounds@[i].round == round,
        ensures
            has_round(self.rounds@, round),
            round_index(self.rounds@, round) == i,
    {
        assert(has_round(self.rounds@, round));
        let j = round_index(self.rounds@, round);
        assert(0 <= j < self.rounds@.len() && self.rounds@[j].round == round);
        if i < j {
            assert(self.rounds@[i].round != self.rounds@[j].round);
        } else if j < i {
            assert(self.rounds@[j].round != self.rounds@[i].round);
        }
    }

    /// Open a query for `round`, addressed to `validators`.
    pub fn open(
        &mut self,
        round: u64,
        validators: Vec<u64>,
        prevotes_only: bool,
        deadline: u64,
    ) -> (r: Result<(), Error>)
        requires
            old(self).wf(),
            forall|a: int, b: int|
                0 <= a < b < validators@.len() ==> validators@[a] != validators@[b],
        ensures
            final(self).wf(),
            has_round(old(self).rounds@, round) ==> {
                &&& r == Err::<(), Error>(Error::RoundAlreadyQueried)
                &&& *final(self) == *old(self)
            },
            !has_round(old(self).rounds@, round) ==> {
                &&& r == Ok::<(), Error>(())
                &&& final(self).rounds@.len() == old(self).rounds@.len() + 1
                &&& forall|i: int|
                    0 <= i < old(self).rounds@.len()
                        ==> final(self).rounds@[i] == old(self).rounds@[i]
                &&& final(self).rounds@.last().round == round
                &&& final(self).rounds@.last().prevotes_only == prevotes_only
                &&& final(self).rounds@.last().deadline == deadline
                &&& final(self).rounds@.last().entries@ == pending_entries(validators@)
                &&& final(self).rounds@.last().closed == (validators@.len() == 0)
            },
    {
        match round_position(&self.rounds, round) {
            Some(i) => {
                proof {
                    assert(has_round(self.rounds@, round));
                }
                return Err(Error::RoundAlreadyQueried);
            },
            None => {},
        }
        let mut entries: Vec<QueryEntry> = Vec::new();
        let mut k: usize = 0;
        while k < validators.len()
            invariant
                k <= validators@.len(),
                entries@.len() == k,
                forall|j: int|
                    0 <= j < k
                        ==> entries@[j] == (QueryEntry {
                        validator: validators@[j],
                        status: ResponseStatus::Pending,
                    }),
            decreases validators@.len() - k,
        {
            entries.push(QueryEntry { validator: validators[k], status: ResponseStatus::Pending });
            k += 1;
        }
        proof {
            assert(entries@ =~= pending_entries(validators@));
        }
        let closed = validators.len() == 0;
        let qs = QueryState { round, prevotes_only, deadline, entries, closed };
        self.rounds.push(qs);
        proof {
            let rs = final(self).rounds@;
            assert(rs.last() == qs);
            assert forall|a: int, b: int| 0 <= a < b < rs.len() implies rs[a].round
                != rs[b].round by {
                if b == rs.len() - 1 {
                    assert(rs[a] == old(self).rounds@[a]);
                }
            }
            assert forall|i2: int| 0 <= i2 < rs.len() implies query_state_wf(
                #[trigger] rs[i2],
            ) by {
                if i2 == rs.len() - 1 {
                    let pes = qs.entries@;
                    assert(forall|j: int|
                        0 <= j < pes.len() ==> (#[trigger] pes[j]).validator == validators@[j]
                            && pes[j].status is Pending);
                    assert(entries_unique(pes));
                    if pes.len() == 0 {
                        assert(all_answered(pes));
                    } else {
                        assert(pes[0].status is Pending);
                        assert(!all_answered(pes));
                    }
                } else {
                    assert(rs[i2] == old(self).rounds@[i2]);
                }
            }
        }
        Ok(())
    }

    /// Record a validator's answer for a round, together with the response
    /// validator's verdict on it, and recompute the round's closure flag.
    pub fn mark_responded(
        &mut self,
        round: u64,
        validator: u64,
        record: ResponseRecord,
        verdict: Validity,
    ) -> (r: Result<(), Error>)
        requires
            old(self).wf(),
        ensures
            final(self).wf(),
            ({
                let rs = old(self).rounds@;
                let ri = round_index(rs, round);
                &&& !has_round(rs, round) ==> r == Err::<(), Error>(Error::NotQueried)
                    && *final(self) == *old(self)
                &&& has_round(rs, round) && !has_validator(rs[ri].entries@, validator)
                    ==> r == Err::<(), Error>(Error::NotQueried) && *final(self) == *old(self)
                &&& has_round(rs, round) && has_validator(rs[ri].entries@, validator)
                    && !(rs[ri].entries@[entry_index(rs[ri].entries@, validator)].status
                    is Pending) ==> r == Err::<(), Error>(Error::DuplicateResponse)
                    && *final(self) == *old(self)
                &&& has_round(rs, round) && has_validator(rs[ri].entries@, validator)
                    && rs[ri].entries@[entry_index(rs[ri].entries@, validator)].status
                    is Pending ==> {
                    let es = rs[ri].entries@;
                    let ei = entry_index(es, validator);
                    let es2 = es.update(
                        ei,
                        QueryEntry {
                            validator,
                            status: ResponseStatus::Answered(record, verdict),
                        },
                    );
                    &&& r == Ok::<(), Error>(())
                    &&& final(self).rounds@.len() == rs.len()
                    &&& forall|i: int|
                        0 <= i < rs.len() && i != ri ==> final(self).rounds@[i] == rs[i]
                    &&& final(self).rounds@[ri].round == rs[ri].round
                    &&& final(self).rounds@[ri].prevotes_only == rs[ri].prevotes_only
                    &&& final(self).rounds@[ri].deadline == rs[ri].deadline
                    &&& final(self).rounds@[ri].entries@ == es2
                    &&& final(self).rounds@[ri].closed == all_answered(es2)
                }
            }),
    {
        let ghost rs = self.rounds@;
        let i: usize = match round_position(&self.rounds, round) {
            None => {
                return Err(Error::NotQueried);
            },
            Some(i) => i,
        };
        proof {
            self.lemma_round_index_is(round, i as int);
        }
        let ghost ri = i as int;
        let ghost es = rs[ri].entries@;
        let j: usize = match validator_position(&self.rounds[i].entries, validator) {
            None => {
                return Err(Error::NotQueried);
            },
            Some(j) => j,
        };
        proof {
            assert(has_validator(es, validator));
            let k = entry_index(es, validator);
            assert(0 <= k < es.len() && es[k].validator == validator);
            if k < j as int {
                assert(es[k].validator != es[j as int].validator);
            } else if (j as int) < k {
                assert(es[j as int].validator != es[k].validator);
            }
            assert(entry_index(es, validator) == j as int);
        }
        let already = match &self.rounds[i].entries[j].status {
            ResponseStatus::Pending => false,
            _ => true,
        };
        if already {
            return Err(Error::DuplicateResponse);
        }
        let e = &mut self.rounds[i].entries[j];
        e.status = ResponseStatus::Answered(record, verdict);
        let c = entries_all_answered(&self.rounds[i].entries);
        let qs = &mut self.rounds[i];
        qs.closed = c;
        proof {
            let es2 = es.update(
                j as int,
                QueryEntry { validator, status: self.rounds@[ri].entries@[j as int].status },
            );
            assert(final(self).rounds@[ri].entries@ =~= es2);
            assert forall|a: int, b: int|
                0 <= a < b < final(self).rounds@.len() implies final(self).rounds@[a].round
                != final(self).rounds@[b].round by {
                assert(final(self).rounds@[a].round == rs[a].round);
                assert(final(self).rounds@[b].round == rs[b].round);
            }
            assert forall|i2: int| 0 <= i2 < final(self).rounds@.len() implies query_state_wf(
                #[trigger] final(self).rounds@[i2],
            ) by {
                if i2 == ri {
                    assert(entries_unique(final(self).rounds@[ri].entries@));
                } else {
                    assert(final(self).rounds@[i2] == rs[i2]);
                }
            }
        }
        Ok(())
    }

    /// The deadline for `round` has passed: mark every still-pending
    /// validator delinquent and close the round.
    pub fn mark_delinquent(&mut self, round: u64) -> (r: Result<(), Error>)
        requires
            old(self).wf(),
        ensures
            final(self).wf(),
            !has_round(old(self).rounds@, round) ==> r == Err::<(), Error>(Error::NotQueried)
                && *final(self) == *old(self),
            has_round(old(self).rounds@, round) ==> {
                let rs = old(self).rounds@;
                let ri = round_index(rs, round);
                &&& r == Ok::<(), Error>(())
                &&& final(self).rounds@.len() == rs.len()
                &&& forall|i: int| 0 <= i < rs.len() && i != ri ==> final(self).rounds@[i] == rs[i]
                &&& final(self).rounds@[ri].round == rs[ri].round
                &&& final(self).rounds@[ri].prevotes_only == rs[ri].prevotes_only
                &&& final(self).rounds@[ri].deadline == rs[ri].deadline
                &&& final(self).rounds@[ri].entries@ == mark_delinquent_seq(rs[ri].entries@)
                &&& final(self).rounds@[ri].closed
            },
    {
        let ghost rs = self.rounds@;
        let i: usize = match round_position(&self.rounds, round) {
            None => {
                return Err(Error::NotQueried);
            },
            Some(i) => i,
        };
        proof {
            self.lemma_round_index_is(round, i as int);
        }
        let ghost ri = i as int;
        let ghost es = rs[ri].entries@;
        let n = self.rounds[i].entries.len();
        let mut k: usize = 0;
        while k < n
            invariant
                k <= n,
                i < self.rounds@.len(),
                self.rounds@.len() == rs.len(),
                ri == i as int,
                n == es.len(),
                forall|i2: int| 0 <= i2 < rs.len() && i2 != ri ==> self.rounds@[i2] == rs[i2],
                self.rounds@[ri].round == rs[ri].round,
                self.rounds@[ri].prevotes_only == rs[ri].prevotes_only,
                self.rounds@[ri].deadline == rs[ri].deadline,
                self.rounds@[ri].closed == rs[ri].closed,
                self.rounds@[ri].entries@.len() == n,
                forall|j: int| 0 <= j < k ==> self.rounds@[ri].entries@[j] == mark_entry(es[j]),
                forall|j: int| k <= j < n ==> self.rounds@[ri].entries@[j] == es[j],
            decreases n - k,
        {
            let pending = match &self.rounds[i].entries[k].status {
                ResponseStatus::Pending => true,
                _ => false,
            };
            if pending {
                let e = &mut self.rounds[i].entries[k];
                e.status = ResponseStatus::Delinquent;
            }
            k += 1;
        }
        let qs = &mut self.rounds[i];
        qs.closed = true;
        proof {
            assert(final(self).rounds@[ri].entries@ =~= mark_delinquent_seq(es));
            assert(all_answered(final(self).rounds@[ri].entries@));
            assert forall|a: int, b: int|
                0 <= a < b < final(self).rounds@.len() implies final(self).rounds@[a].round
                != final(self).rounds@[b].round by {
                assert(final(self).rounds@[a].round == rs[a].round);
                assert(final(self).rounds@[b].round == rs[b].round);
            }
            assert forall|i2: int| 0 <= i2 < final(self).rounds@.len() implies query_state_wf(
                #[trigger] final(self).rounds@[i2],
            ) by {
                if i2 == ri {
                    assert(entries_unique(final(self).rounds@[ri].entries@));
                } else {
                    assert(final(self).rounds@[i2] == rs[i2]);
                }
            }
        }
        Ok(())
    }
}

/// Whether every entry of a round is answered or delinquent.
pub fn entries_all_answered(es: &Vec<QueryEntry>) -> (b: bool)
    ensures
        b == all_answered(es@),
{
    let mut k: usize = 0;
    while k < es.len()
        invariant
            k <= es@.len(),
            forall|i: int| 0 <= i < k ==> !(#[trigger] es@[i].status is Pending),
        decreases es@.len() - k,
    {
        let pending = match &es[k].status {
            ResponseStatus::Pending => true,
            _ => false,
        };
        if pending {
            return false;
        }
        k += 1;
    }
    true
}

} // verus!
