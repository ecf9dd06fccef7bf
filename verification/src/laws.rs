//! The library's global guarantees, stated and proved once over the
//! store's transition model. Because every executable operation's
//! contract equates its outcome with the model transition, each law here
//! holds of the running code as well.

use crate::model::{poll_wf, PollError, PollRef, VoteModel};
use crate::store::{
    create_poll_model, current_poll_model, find_poll_model, has_vote_model,
    lemma_create_preserves_inv, lemma_submit_preserves_inv, resolve_poll_model, store_inv,
    submit_vote_model, StoreModel,
};
use vstd::prelude::*;

verus! {

/// Every poll a successful creation stores is well formed: a non-empty
/// trimmed title, at least two options, and no option empty after
/// trimming. The new poll is afterwards found under its id.
pub proof fn lemma_created_poll_well_formed(
    s: StoreModel,
    title: Seq<char>,
    options: Seq<Seq<char>>,
    minutes: i64,
    now: i64,
)
    requires
        store_inv(s),
    ensures
        create_poll_model(s, title, options, minutes, now).1 matches Ok(p) ==> poll_wf(p)
            && find_poll_model(create_poll_model(s, title, options, minutes, now).0.polls, p.id)
            == Some(p),
        store_inv(create_poll_model(s, title, options, minutes, now).0),
{
    lemma_create_preserves_inv(s, title, options, minutes, now);
}

/// In single-active-poll mode a successful creation replaces everything
/// in one step: the new poll is the current poll, and no vote of any
/// earlier poll remains reachable.
pub proof fn lemma_replacement_resets(
    s: StoreModel,
    title: Seq<char>,
    options: Seq<Seq<char>>,
    minutes: i64,
    now: i64,
)
    requires
        store_inv(s),
        s.single_active,
    ensures
        create_poll_model(s, title, options, minutes, now).1 matches Ok(p) ==> {
            let s2 = create_poll_model(s, title, options, minutes, now).0;
            &&& current_poll_model(s2.polls) == Some(p)
            &&& s2.votes == Seq::<VoteModel>::empty()
            &&& forall|pid: u64, voter: Seq<char>| !has_vote_model(s2.votes, pid, voter)
        },
{
    lemma_create_preserves_inv(s, title, options, minutes, now);
}

/// A vote arriving at or after the poll's deadline is rejected as
/// `Expired` — even from a voter who has never voted — and nothing
/// changes.
pub proof fn lemma_expired_always_rejected(
    s: StoreModel,
    r: PollRef,
    voter: Seq<char>,
    idx: int,
    now: i64,
)
    requires
        resolve_poll_model(s, r) matches Some(p) && now >= p.expires_at,
    ensures
        submit_vote_model(s, r, voter, idx, now) == (
            s,
            Err::<VoteModel, PollError>(PollError::Expired),
        ),
{
}

/// On a live poll, an option index outside `[0, options.len())` is
/// rejected as `InvalidOptionIndex`, whatever the voter's history, and
/// nothing changes. (On an expired poll the expiry check answers first,
/// so the outcome there is `Expired`.)
pub proof fn lemma_invalid_index_rejected(
    s: StoreModel,
    r: PollRef,
    voter: Seq<char>,
    idx: int,
    now: i64,
)
    requires
        resolve_poll_model(s, r) matches Some(p) && now < p.expires_at && (idx < 0 || idx
            >= p.options.len()),
    ensures
        submit_vote_model(s, r, voter, idx, now) == (
            s,
            Err::<VoteModel, PollError>(PollError::InvalidOptionIndex),
        ),
{
}

/// A batch of submissions applied in arrival order, with each outcome.
pub open spec fn run_submits(
    s: StoreModel,
    reqs: Seq<(PollRef, int)>,
    voter: Seq<char>,
    now: i64,
) -> (StoreModel, Seq<Result<VoteModel, PollError>>)
    decreases reqs.len(),
{
    if reqs.len() == 0 {
        (s, Seq::empty())
    } else {
        let prev = run_submits(s, reqs.drop_last(), voter, now);
        let step = submit_vote_model(prev.0, reqs.last().0, voter, reqs.last().1, now);
        (step.0, prev.1.push(step.1))
    }
}

/// How many outcomes of a batch succeeded.
pub open spec fn count_ok(outs: Seq<Result<VoteModel, PollError>>) -> nat
    decreases outs.len(),
{
    if outs.len() == 0 {
        0
    } else {
        count_ok(outs.drop_last()) + if outs.last() is Ok {
            1nat
        } else {
            0nat
        }
    }
}

/// How many outcomes of a batch were rejected as `AlreadyVoted`.
pub open spec fn count_already_voted(outs: Seq<Result<VoteModel, PollError>>) -> nat
    decreases outs.len(),
{
    if outs.len() == 0 {
        0
    } else {
        count_already_voted(outs.drop_last()) + if outs.last() == Err::<VoteModel, PollError>(
            PollError::AlreadyVoted,
        ) {
            1nat
        } else {
            0nat
        }
    }
}

/// A request that would succeed on its own: it resolves to the poll in
/// question, the poll is still live, and the chosen index is in range.
pub open spec fn valid_req(s: StoreModel, req: (PollRef, int), poll_id: u64, now: i64) -> bool {
    match resolve_poll_model(s, req.0) {
        Some(p) => p.id == poll_id && now < p.expires_at && 0 <= req.1 < p.options.len(),
        None => false,
    }
}

proof fn lemma_batch_single_success(
    s: StoreModel,
    reqs: Seq<(PollRef, int)>,
    voter: Seq<char>,
    now: i64,
    poll_id: u64,
)
    requires
        store_inv(s),
        reqs.len() >= 1,
        s.next_vote_id < u64::MAX,
        !has_vote_model(s.votes, poll_id, voter),
        forall|i: int| 0 <= i < reqs.len() ==> valid_req(s, #[trigger] reqs[i], poll_id, now),
    ensures
        ({
            let out = run_submits(s, reqs, voter, now);
            &&& out.1.len() == reqs.len()
            &&& count_ok(out.1) == 1
            &&& count_already_voted(out.1) == reqs.len() - 1
            &&& out.0.polls == s.polls
            &&& out.0.votes.len() == s.votes.len() + 1
            &&& has_vote_model(out.0.votes, poll_id, voter)
            &&& store_inv(out.0)
        }),
    decreases reqs.len(),
{
    let out = run_submits(s, reqs, voter, now);
    let last = reqs.last();
    if reqs.len() == 1 {
        assert(valid_req(s, reqs[0], poll_id, now));
        assert(reqs[0] == last);
        assert(reqs.drop_last().len() == 0);
        let e = Seq::<Result<VoteModel, PollError>>::empty();
        assert(run_submits(s, reqs.drop_last(), voter, now) == (s, e));
        let step = submit_vote_model(s, last.0, voter, last.1, now);
        lemma_submit_preserves_inv(s, last.0, voter, last.1, now);
        let p = resolve_poll_model(s, last.0)->Some_0;
        assert(p.id == poll_id);
        assert(step.1 is Ok);
        assert(out.0 == step.0 && out.1 == e.push(step.1));
        assert(out.1.drop_last() =~= e);
        assert(out.1.last() == step.1);
        assert(count_ok(e) == 0);
        assert(count_already_voted(e) == 0);
        assert(count_ok(out.1) == 1);
        assert(count_already_voted(out.1) == 0);
    } else {
        assert(forall|i: int|
            0 <= i < reqs.drop_last().len() ==> valid_req(
                s,
                #[trigger] reqs.drop_last()[i],
                poll_id,
                now,
            ));
        lemma_batch_single_success(s, reqs.drop_last(), voter, now, poll_id);
        let prev = run_submits(s, reqs.drop_last(), voter, now);
        assert(valid_req(s, reqs[reqs.len() - 1], poll_id, now));
        let p = resolve_poll_model(s, last.0)->Some_0;
        assert(resolve_poll_model(prev.0, last.0) == resolve_poll_model(s, last.0));
        let step = submit_vote_model(prev.0, last.0, voter, last.1, now);
        assert(step == (prev.0, Err::<VoteModel, PollError>(PollError::AlreadyVoted)));
        assert(out.1.drop_last() =~= prev.1);
    }
}

/// Exactly-once voting under any interleaving: however many submissions
/// (N at least two) arrive for the same `(poll, voter)` pair, in whatever
/// order the store serializes them, exactly one is accepted and stored,
/// and the other N − 1 are rejected as `AlreadyVoted`.
pub proof fn lemma_duplicate_votes_collapse(
    s: StoreModel,
    reqs: Seq<(PollRef, int)>,
    voter: Seq<char>,
    now: i64,
    poll_id: u64,
)
    requires
        store_inv(s),
        reqs.len() >= 2,
        s.next_vote_id < u64::MAX,
        !has_vote_model(s.votes, poll_id, voter),
        forall|i: int| 0 <= i < reqs.len() ==> valid_req(s, #[trigger] reqs[i], poll_id, now),
    ensures
        ({
            let out = run_submits(s, reqs, voter, now);
            &&& out.1.len() == reqs.len()
            &&& count_ok(out.1) == 1
            &&& count_already_voted(out.1) == reqs.len() - 1
            &&& out.0.votes.len() == s.votes.len() + 1
            &&& has_vote_model(out.0.votes, poll_id, voter)
        }),
{
    lemma_batch_single_success(s, reqs, voter, now, poll_id);
}

} // verus!
