//! The wall clock. Expiry is evaluated lazily, by comparing the clock at
//! request time; the reading itself is the one thing taken on trust here,
//! and every rule about it is proved in the functions that take the
//! reading as an argument.

use crate::model::{CreatePoll, Poll, PollError, PollRef, Vote};
use crate::store::{
    create_poll_model, poll_result_model, store_inv, submit_vote_model, vote_result_model,
    PollStore,
};
use vstd::prelude::*;

verus! {

/// Relies on chrono's `Utc::now` and `DateTime::timestamp_millis`: the
/// current UTC time in milliseconds since the Unix epoch. Nothing is
/// assumed of the reading except that it is not before the epoch, which
/// is the only case in which `Utc::now` returns at all.
#[verifier::external_body]
fn now_millis() -> (r: i64)
    ensures
        r >= 0,
{
    chrono::Utc::now().timestamp_millis()
}

impl PollStore {
    /// `create_poll` at the current wall-clock time. The instant used is
    /// returned beside the outcome, and the outcome is exactly what
    /// `create_poll` gives at that instant.
    pub fn create_poll_now(&mut self, req: &CreatePoll) -> (r: (i64, Result<Poll, PollError>))
        requires
            store_inv(old(self)@),
        ensures
            store_inv(final(self)@),
            r.0 >= 0,
            final(self)@ == create_poll_model(
                old(self)@,
                req.title@,
                req.options.deep_view(),
                req.expires_in_minutes,
                r.0,
            ).0,
            poll_result_model(r.1) == create_poll_model(
                old(self)@,
                req.title@,
                req.options.deep_view(),
                req.expires_in_minutes,
                r.0,
            ).1,
    {
        let now = now_millis();
        let out = self.create_poll(req, now);
        (now, out)
    }

    /// `submit_vote` at the current wall-clock time. The instant used is
    /// returned beside the outcome, and the outcome is exactly what
    /// `submit_vote` gives at that instant.
    pub fn submit_vote_now(
        &mut self,
        poll_ref: PollRef,
        voter_identifier: String,
        option_index: i32,
    ) -> (r: (i64, Result<Vote, PollError>))
        requires
            store_inv(old(self)@),
        ensures
            store_inv(final(self)@),
            r.0 >= 0,
            final(self)@ == submit_vote_model(
                old(self)@,
                poll_ref,
                voter_identifier@,
                option_index as int,
                r.0,
            ).0,
            vote_result_model(r.1) == submit_vote_model(
                old(self)@,
                poll_ref,
                voter_identifier@,
                option_index as int,
                r.0,
            ).1,
    {
        let now = now_millis();
        let out = self.submit_vote(poll_ref, voter_identifier, option_index, now);
        (now, out)
    }
}

} // verus!
