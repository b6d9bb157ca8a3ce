//! Accountable-safety investigation protocol for a BFT finality gadget.
//!
//! When two mutually inconsistent blocks are both reported as finalized, this
//! library runs the after-the-fact investigation that determines which
//! validators cast the contradictory votes.  It queries the voters of the
//! implicated round, folds in their (validated) responses, walks backwards
//! through earlier rounds while the gathered justifications demand it, and
//! terminates with a deduplicated, ordered set of culprits.
//!
//! The library is pure state-machine logic: every mutating operation runs to
//! completion, depends only on the sequence of inputs, and is driven from the
//! outside by a host that reports conflicts, relays responses and calls the
//! periodic progress tick.

pub mod types;
pub mod ordset;
pub mod culprits;
pub mod response;
pub mod registry;
pub mod machine;

use vstd::prelude::*;
use crate::types::{Commit, ResponseRecord, Validity, Error};
use crate::machine::{AccountableSafetyHandler, StateView};

verus! {

/// The host-facing capability for driving an accountable-safety
/// investigation.  The host owns the state object and passes it into every
/// entry point; the handler below is the one implementation, and its
/// inherent methods carry the exact contracts of each operation.
pub trait AccountableSafety {
    /// Well-formedness that every operation preserves.
    spec fn wf_state(&self) -> bool;

    /// Update the accountable safety state machine, if an investigation is
    /// active.  `now` is the host's current progress height.
    fn update(&mut self, now: u64) -> (r: Result<(), Error>)
        requires
            old(self).wf_state(),
        ensures
            final(self).wf_state(),
    ;

    /// Initiate the accountable safety protocol.  Called when mutually
    /// inconsistent finalized blocks are detected.
    fn start_accountable_safety_protocol(
        &mut self,
        first: Commit,
        second: Commit,
        now: u64,
    ) -> (r: Result<(), Error>)
        requires
            old(self).wf_state(),
        ensures
            final(self).wf_state(),
    ;

    /// The current state of the accountable safety protocol instance.  Used
    /// by the worker to determine e.g. whether it needs to submit any query
    /// replies.
    fn state(&self) -> (s: StateView)
        requires
            self.wf_state(),
    ;

    /// Submit a response to a query where the reply can be either prevotes
    /// or precommits.
    fn add_response(
        &mut self,
        validator: u64,
        round: u64,
        record: ResponseRecord,
    ) -> (r: Result<Validity, Error>)
        requires
            old(self).wf_state(),
        ensures
            final(self).wf_state(),
    ;

    /// Submit a response to a query which specifically calls for prevotes.
    fn add_prevote_response(
        &mut self,
        validator: u64,
        round: u64,
        record: ResponseRecord,
    ) -> (r: Result<Validity, Error>)
        requires
            old(self).wf_state(),
        ensures
            final(self).wf_state(),
    ;
}

impl AccountableSafety for AccountableSafetyHandler {
    open spec fn wf_state(&self) -> bool {
        self.wf()
    }

    fn update(&mut self, now: u64) -> (r: Result<(), Error>) {
        self.tick(now)
    }

    fn start_accountable_safety_protocol(
        &mut self,
        first: Commit,
        second: Commit,
        now: u64,
    ) -> (r: Result<(), Error>) {
        self.start(first, second, now)
    }

    fn state(&self) -> (s: StateView) {
        self.current_state()
    }

    fn add_response(
        &mut self,
        validator: u64,
        round: u64,
        record: ResponseRecord,
    ) -> (r: Result<Validity, Error>) {
        self.submit_response(validator, round, record)
    }

    fn add_prevote_response(
        &mut self,
        validator: u64,
        round: u64,
        record: ResponseRecord,
    ) -> (r: Result<Validity, Error>) {
        self.submit_prevote_response(validator, round, record)
    }
}

} // verus!
