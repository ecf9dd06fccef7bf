//! The poll store: the one shared, mutable resource of the system, with
//! its transactional rules stated as a mathematical transition model.
//!
//! Every operation's contract equates the executable outcome with a spec
//! transition over [`StoreModel`], so properties of sequences of calls can
//! be proved once, at the model level, and hold of the running code.

use crate::model::{
    clean_options, lemma_clean_options_clean, lemma_trim_idempotent,
    poll_wf, trim_spec, trim_str, CreatePoll, Poll, PollError, PollModel, PollRef, Vote, VoteModel,
};
use vstd::prelude::*;

verus! {

/// Mathematical image of a whole store.
#[verifier::ext_equal]
pub ghost struct StoreModel {
    pub polls: Seq<PollModel>,
    pub votes: Seq<VoteModel>,
    pub next_poll_id: u64,
    pub next_vote_id: u64,
    pub single_active: bool,
}

/// Polls and votes, with store-assigned identifiers.
///
/// In single-active-poll mode the store keeps at most one poll, and
/// creating a poll atomically replaces the previous poll and its votes.
#[derive(Debug)]
pub struct PollStore {
    pub polls: Vec<Poll>,
    pub votes: Vec<Vote>,
    pub next_poll_id: u64,
    pub next_vote_id: u64,
    pub single_active: bool,
}

impl DeepView for Poll {
    type V = PollModel;

    open spec fn deep_view(&self) -> PollModel {
        self.view()
    }
}

impl DeepView for Vote {
    type V = VoteModel;

    open spec fn deep_view(&self) -> VoteModel {
        self.view()
    }
}

impl View for PollStore {
    type V = StoreModel;

    open spec fn view(&self) -> StoreModel {
        StoreModel {
            polls: self.polls.deep_view(),
            votes: self.votes.deep_view(),
            next_poll_id: self.next_poll_id,
            next_vote_id: self.next_vote_id,
            single_active: self.single_active,
        }
    }
}

/// The first poll carrying `id`, if any. Under the store invariant
/// identifiers are unique, so "first" is "the one".
pub open spec fn find_poll_model(polls: Seq<PollModel>, id: u64) -> Option<PollModel>
    decreases polls.len(),
{
    if polls.len() == 0 {
        None
    } else if polls[0].id == id {
        Some(polls[0])
    } else {
        find_poll_model(polls.drop_first(), id)
    }
}

/// The most recently created poll: the last one inserted.
pub open spec fn current_poll_model(polls: Seq<PollModel>) -> Option<PollModel> {
    if polls.len() == 0 {
        None
    } else {
        Some(polls.last())
    }
}

/// How a `PollRef` names a poll of the store.
pub open spec fn resolve_poll_model(s: StoreModel, r: PollRef) -> Option<PollModel> {
    match r {
        PollRef::Current => current_poll_model(s.polls),
        PollRef::Id(id) => find_poll_model(s.polls, id),
    }
}

/// Whether `voter` already has a vote on poll `poll_id`.
pub open spec fn has_vote_model(votes: Seq<VoteModel>, poll_id: u64, voter: Seq<char>) -> bool {
    exists|i: int|
        0 <= i < votes.len() && votes[i].poll_id == poll_id && votes[i].voter == voter
}

/// A vote must name an existing poll and one of its option positions.
pub open spec fn vote_wf(v: VoteModel, polls: Seq<PollModel>) -> bool {
    match find_poll_model(polls, v.poll_id) {
        Some(p) => 0 <= v.option_index < p.options.len(),
        None => false,
    }
}

/// The store invariant: every poll well formed with a fresh-bounded unique
/// id, every vote aimed at a real option of a real poll, at most one vote
/// per `(poll, voter)` pair, and at most one poll in single-active mode.
pub open spec fn store_inv(s: StoreModel) -> bool {
    &&& forall|i: int|
        0 <= i < s.polls.len() ==> poll_wf(#[trigger] s.polls[i]) && s.polls[i].id
            < s.next_poll_id
    &&& forall|i: int, j: int|
        0 <= i < j < s.polls.len() ==> s.polls[i].id != s.polls[j].id
    &&& forall|i: int|
        0 <= i < s.votes.len() ==> vote_wf(#[trigger] s.votes[i], s.polls) && s.votes[i].id
            < s.next_vote_id
    &&& forall|i: int, j: int| 0 <= i < j < s.votes.len() ==> s.votes[i].id != s.votes[j].id
    &&& forall|i: int, j: int|
        0 <= i < j < s.votes.len() ==> !(s.votes[i].poll_id == s.votes[j].poll_id
            && s.votes[i].voter == s.votes[j].voter)
    &&& s.single_active ==> s.polls.len() <= 1
}

/// Whether `now + minutes` (in milliseconds) can be computed on the
/// store's clock without leaving its range.
pub open spec fn expiry_in_range(now: i64, minutes: i64) -> bool {
    &&& i64::MIN <= minutes * 60000 <= i64::MAX
    &&& i64::MIN <= now + minutes * 60000 <= i64::MAX
}

/// The deadline a creation request asks for.
pub open spec fn expiry_of(now: i64, minutes: i64) -> int {
    now + minutes * 60000
}

/// What creating a poll does: validate, then insert — in single-active
/// mode atomically replacing the previous poll and all its votes.
pub open spec fn create_poll_model(
    s: StoreModel,
    title: Seq<char>,
    options: Seq<Seq<char>>,
    minutes: i64,
    now: i64,
) -> (StoreModel, Result<PollModel, PollError>) {
    let t = trim_spec(title);
    let opts = clean_options(options);
    if t.len() == 0 || opts.len() < 2 || !expiry_in_range(now, minutes) {
        (s, Err(PollError::Validation))
    } else if s.next_poll_id == u64::MAX {
        (s, Err(PollError::Storage))
    } else {
        let p = PollModel {
            id: s.next_poll_id,
            title: t,
            options: opts,
            expires_at: expiry_of(now, minutes) as i64,
            created_at: now,
        };
        let s2 = StoreModel {
            polls: if s.single_active {
                seq![p]
            } else {
                s.polls.push(p)
            },
            votes: if s.single_active {
                Seq::empty()
            } else {
                s.votes
            },
            next_poll_id: (s.next_poll_id + 1) as u64,
            next_vote_id: s.next_vote_id,
            single_active: s.single_active,
        };
        (s2, Ok(p))
    }
}

/// What submitting a vote does: resolve the poll, enforce expiry, check
/// the option index, then insert unless the `(poll, voter)` pair already
/// holds a vote — the order the service promises.
pub open spec fn submit_vote_model(
    s: StoreModel,
    r: PollRef,
    voter: Seq<char>,
    idx: int,
    now: i64,
) -> (StoreModel, Result<VoteModel, PollError>) {
    match resolve_poll_model(s, r) {
        None => (s, Err(PollError::NotFound)),
        Some(p) => {
            if now >= p.expires_at {
                (s, Err(PollError::Expired))
            } else if idx < 0 || idx >= p.options.len() {
                (s, Err(PollError::InvalidOptionIndex))
            } else if has_vote_model(s.votes, p.id, voter) {
                (s, Err(PollError::AlreadyVoted))
            } else if s.next_vote_id == u64::MAX {
                (s, Err(PollError::Storage))
            } else {
                let v = VoteModel {
                    id: s.next_vote_id,
                    poll_id: p.id,
                    option_index: idx,
                    voter: voter,
                    created_at: now,
                };
                let s2 = StoreModel {
                    polls: s.polls,
                    votes: s.votes.push(v),
                    next_poll_id: s.next_poll_id,
                    next_vote_id: (s.next_vote_id + 1) as u64,
                    single_active: s.single_active,
                };
                (s2, Ok(v))
            }
        },
    }
}

/// A returned poll, seen at the model level.
pub open spec fn poll_result_model(r: Result<Poll, PollError>) -> Result<PollModel, PollError> {
    match r {
        Ok(p) => Ok(p@),
        Err(e) => Err(e),
    }
}

/// A returned vote, seen at the model level.
pub open spec fn vote_result_model(r: Result<Vote, PollError>) -> Result<VoteModel, PollError> {
    match r {
        Ok(v) => Ok(v@),
        Err(e) => Err(e),
    }
}

/// A returned optional poll, seen at the model level.
pub open spec fn opt_poll_model(r: Option<Poll>) -> Option<PollModel> {
    match r {
        Some(p) => Some(p@),
        None => None,
    }
}

/// If no poll among the first `i` carries `id`, the search outcome is
/// decided by position `i`: a match there is the answer, and exhaustion
/// means there is none.
pub proof fn lemma_find_first_match(polls: Seq<PollModel>, id: u64, i: int)
    requires
        0 <= i <= polls.len(),
        forall|j: int| 0 <= j < i ==> (#[trigger] polls[j]).id != id,
    ensures
        i < polls.len() && polls[i].id == id ==> find_poll_model(polls, id) == Some(polls[i]),
        i == polls.len() ==> find_poll_model(polls, id) is None,
    decreases polls.len(),
{
    if polls.len() == 0 {
    } else if polls[0].id == id {
    } else {
        if i > 0 {
            lemma_find_first_match(polls.drop_first(), id, i - 1);
        } else {
            lemma_find_first_match(polls.drop_first(), id, 0);
        }
    }
}

/// With distinct identifiers, searching for `polls[i].id` finds exactly
/// `polls[i]`.
pub proof fn lemma_find_unique(polls: Seq<PollModel>, i: int)
    requires
        0 <= i < polls.len(),
        forall|j: int, k: int| 0 <= j < k < polls.len() ==> polls[j].id != polls[k].id,
    ensures
        find_poll_model(polls, polls[i].id) == Some(polls[i]),
    decreases polls.len(),
{
    if i == 0 {
    } else {
        lemma_find_unique(polls.drop_first(), i - 1);
    }
}

/// Appending a poll never disturbs the search result for an id that was
/// already present, and a fresh id is found as the new poll.
pub proof fn lemma_find_push(polls: Seq<PollModel>, p: PollModel, id: u64)
    ensures
        find_poll_model(polls, id) is Some ==> find_poll_model(polls.push(p), id)
            == find_poll_model(polls, id),
        find_poll_model(polls, id) is None && p.id == id ==> find_poll_model(polls.push(p), id)
            == Some(p),
        find_poll_model(polls, id) is None && p.id != id ==> find_poll_model(polls.push(p), id)
            is None,
    decreases polls.len(),
{
    assert(polls.push(p)[polls.len() as int] == p);
    if polls.len() == 0 {
        assert(polls.push(p).drop_first() =~= Seq::<PollModel>::empty());
        if p.id != id {
            assert(find_poll_model(polls.push(p), id) == find_poll_model(
                Seq::<PollModel>::empty(),
                id,
            ));
            assert(find_poll_model(Seq::<PollModel>::empty(), id) is None);
        }
    } else {
        assert(polls.push(p)[0] == polls[0]);
        lemma_find_push(polls.drop_first(), p, id);
        assert(polls.push(p).drop_first() =~= polls.drop_first().push(p));
    }
}

/// A found poll carries the id it was searched under, and sits in the
/// sequence.
pub proof fn lemma_find_is_elem(polls: Seq<PollModel>, id: u64)
    ensures
        find_poll_model(polls, id) matches Some(p) ==> p.id == id && exists|i: int|
            0 <= i < polls.len() && polls[i] == p,
    decreases polls.len(),
{
    if polls.len() == 0 {
    } else if polls[0].id == id {
        assert(polls[0] == polls[0]);
    } else {
        lemma_find_is_elem(polls.drop_first(), id);
        if find_poll_model(polls, id) is Some {
            let p = find_poll_model(polls, id)->Some_0;
            let i = choose|i: int|
                0 <= i < polls.drop_first().len() && polls.drop_first()[i] == p;
            assert(polls[i + 1] == p);
        }
    }
}

/// An id above every stored id finds nothing.
pub proof fn lemma_find_fresh_none(polls: Seq<PollModel>, id: u64)
    requires
        forall|i: int| 0 <= i < polls.len() ==> (#[trigger] polls[i]).id < id,
    ensures
        find_poll_model(polls, id) is None,
{
    lemma_find_is_elem(polls, id);
}

/// Creating a poll keeps the store invariant; on success the new poll is
/// well formed, becomes the current poll, and is found under its id.
pub proof fn lemma_create_preserves_inv(
    s: StoreModel,
    title: Seq<char>,
    options: Seq<Seq<char>>,
    minutes: i64,
    now: i64,
)
    requires
        store_inv(s),
    ensures
        store_inv(create_poll_model(s, title, options, minutes, now).0),
        create_poll_model(s, title, options, minutes, now).1 matches Ok(p) ==> poll_wf(p)
            && current_poll_model(create_poll_model(s, title, options, minutes, now).0.polls)
            == Some(p) && find_poll_model(
            create_poll_model(s, title, options, minutes, now).0.polls,
            p.id,
        ) == Some(p),
{
    let t = trim_spec(title);
    let opts = clean_options(options);
    if t.len() == 0 || opts.len() < 2 || !expiry_in_range(now, minutes) {
    } else if s.next_poll_id == u64::MAX {
    } else {
        let out = create_poll_model(s, title, options, minutes, now);
        let p = out.1->Ok_0;
        lemma_trim_idempotent(title);
        lemma_clean_options_clean(options);
        assert(poll_wf(p));
        if s.single_active {
            assert(out.0.polls =~= seq![p]);
            assert(out.0.polls[0] == p);
            assert forall|i: int| 0 <= i < out.0.polls.len() implies poll_wf(
                #[trigger] out.0.polls[i],
            ) && out.0.polls[i].id < out.0.next_poll_id by {}
        } else {
            assert(out.0.polls =~= s.polls.push(p));
            assert(out.0.polls[s.polls.len() as int] == p);
            assert forall|i: int| 0 <= i < s.polls.len() implies out.0.polls[i] == s.polls[i] by {}
            lemma_find_fresh_none(s.polls, p.id);
            lemma_find_push(s.polls, p, p.id);
            assert forall|i: int|
                0 <= i < out.0.votes.len() implies vote_wf(
                #[trigger] out.0.votes[i],
                out.0.polls,
            ) && out.0.votes[i].id < out.0.next_vote_id by {
                assert(out.0.votes[i] == s.votes[i]);
                assert(vote_wf(s.votes[i], s.polls));
                lemma_find_push(s.polls, p, s.votes[i].poll_id);
            }
        }
    }
}

/// Submitting a vote keeps the store invariant and never touches the
/// polls; on success the voter had no vote on that poll before, and has
/// exactly this new one afterwards.
pub proof fn lemma_submit_preserves_inv(
    s: StoreModel,
    r: PollRef,
    voter: Seq<char>,
    idx: int,
    now: i64,
)
    requires
        store_inv(s),
    ensures
        store_inv(submit_vote_model(s, r, voter, idx, now).0),
        submit_vote_model(s, r, voter, idx, now).0.polls == s.polls,
        submit_vote_model(s, r, voter, idx, now).1 matches Ok(v) ==> !has_vote_model(
            s.votes,
            v.poll_id,
            voter,
        ) && has_vote_model(submit_vote_model(s, r, voter, idx, now).0.votes, v.poll_id, voter)
            && submit_vote_model(s, r, voter, idx, now).0.votes == s.votes.push(v),
{
    match resolve_poll_model(s, r) {
        None => {},
        Some(p) => {
            if now >= p.expires_at {
            } else if idx < 0 || idx >= p.options.len() {
            } else if has_vote_model(s.votes, p.id, voter) {
            } else if s.next_vote_id == u64::MAX {
            } else {
                let out = submit_vote_model(s, r, voter, idx, now);
                let v = out.1->Ok_0;
                match r {
                    PollRef::Current => {
                        lemma_find_unique(s.polls, s.polls.len() - 1);
                    },
                    PollRef::Id(id) => {
                        lemma_find_is_elem(s.polls, id);
                    },
                }
                assert(find_poll_model(s.polls, p.id) == Some(p));
                assert(vote_wf(v, s.polls));
                let votes2 = out.0.votes;
                assert(votes2 =~= s.votes.push(v));
                assert(votes2[s.votes.len() as int] == v);
                assert forall|i: int, j: int| 0 <= i < j < votes2.len() implies !(votes2[i].poll_id
                    == votes2[j].poll_id && votes2[i].voter == votes2[j].voter) by {
                    if j < s.votes.len() {
                    } else {
                        assert(votes2[i] == s.votes[i]);
                        assert(votes2[j] == v);
                        if votes2[i].poll_id == v.poll_id && votes2[i].voter == v.voter {
                            assert(has_vote_model(s.votes, p.id, voter));
                        }
                    }
                }
                assert(has_vote_model(votes2, p.id, voter)) by {
                    assert(votes2[s.votes.len() as int].poll_id == p.id && votes2[s.votes.len()
                        as int].voter == voter);
                }
            }
        },
    }
}

impl PollStore {
    /// A fresh, empty store.
    pub fn new(single_active: bool) -> (s: Self)
        ensures
            s@ == (StoreModel {
                polls: Seq::<PollModel>::empty(),
                votes: Seq::<VoteModel>::empty(),
                next_poll_id: 0,
                next_vote_id: 0,
                single_active: single_active,
            }),
            store_inv(s@),
    {
        let s = PollStore {
            polls: Vec::new(),
            votes: Vec::new(),
            next_poll_id: 0,
            next_vote_id: 0,
            single_active: single_active,
        };
        proof {
            assert(s.polls.deep_view() =~= Seq::<PollModel>::empty());
            assert(s.votes.deep_view() =~= Seq::<VoteModel>::empty());
            assert(s@ =~= (StoreModel {
                polls: Seq::<PollModel>::empty(),
                votes: Seq::<VoteModel>::empty(),
                next_poll_id: 0,
                next_vote_id: 0,
                single_active: single_active,
            }));
        }
        s
    }

    /// The poll named by `id`, or `NotFound`.
    pub fn get_poll(&self, id: u64) -> (r: Result<Poll, PollError>)
        ensures
            poll_result_model(r) == match find_poll_model(self@.polls, id) {
                Some(p) => Ok::<PollModel, PollError>(p),
                None => Err::<PollModel, PollError>(PollError::NotFound),
            },
    {
        let n = self.polls.len();
        let mut i: usize = 0;
        while i < n
            invariant
                0 <= i <= n,
                n == self.polls.len(),
                forall|j: int| 0 <= j < i ==> (#[trigger] self@.polls[j]).id != id,
            decreases n - i,
        {
            if self.polls[i].id == id {
                proof {
                    lemma_find_first_match(self@.polls, id, i as int);
                }
                return Ok(clone_poll(&self.polls[i]));
            }
            i = i + 1;
        }
        proof {
            lemma_find_first_match(self@.polls, id, n as int);
        }
        Err(PollError::NotFound)
    }

    /// The most recently created poll, or `None` if the store is empty.
    pub fn get_current_poll(&self) -> (r: Option<Poll>)
        ensures
            opt_poll_model(r) == current_poll_model(self@.polls),
    {
        let n = self.polls.len();
        if n == 0 {
            None
        } else {
            Some(clone_poll(&self.polls[n - 1]))
        }
    }

    /// Whether `voter` already holds a vote on poll `poll_id`.
    fn has_vote(&self, poll_id: u64, voter: &String) -> (r: bool)
        ensures
            r == has_vote_model(self@.votes, poll_id, voter@),
    {
        let n = self.votes.len();
        let mut i: usize = 0;
        while i < n
            invariant
                0 <= i <= n,
                n == self.votes.len(),
                forall|j: int|
                    0 <= j < i ==> !((#[trigger] self@.votes[j]).poll_id == poll_id
                        && self@.votes[j].voter == voter@),
            decreases n - i,
        {
            if self.votes[i].poll_id == poll_id && self.votes[i].voter_identifier == *voter {
                proof {
                    assert(self@.votes[i as int].poll_id == poll_id && self@.votes[i as int].voter
                        == voter@);
                }
                return true;
            }
            i = i + 1;
        }
        false
    }

    /// Validates and inserts a new poll; in single-active-poll mode the
    /// previous poll and all its votes are removed in the same step, so no
    /// partial replacement is ever visible.
    pub fn create_poll(&mut self, req: &CreatePoll, now: i64) -> (r: Result<Poll, PollError>)
        requires
            store_inv(old(self)@),
        ensures
            store_inv(final(self)@),
            final(self)@ == create_poll_model(
                old(self)@,
                req.title@,
                req.options.deep_view(),
                req.expires_in_minutes,
                now,
            ).0,
            poll_result_model(r) == create_poll_model(
                old(self)@,
                req.title@,
                req.options.deep_view(),
                req.expires_in_minutes,
                now,
            ).1,
            r matches Ok(p) ==> poll_wf(p@),
    {
        proof {
            lemma_create_preserves_inv(
                old(self)@,
                req.title@,
                req.options.deep_view(),
                req.expires_in_minutes,
                now,
            );
        }
        let title_t = trim_str(req.title.as_str());
        let ghost odv = req.options.deep_view();
        let mut opts: Vec<String> = Vec::new();
        let n = req.options.len();
        let mut k: usize = 0;
        while k < n
            invariant
                0 <= k <= n,
                n == req.options.len(),
                odv == req.options.deep_view(),
                opts.deep_view() == clean_options(odv.take(k as int)),
            decreases n - k,
        {
            let t = trim_str(req.options[k].as_str());
            proof {
                assert(odv.take(k + 1 as int).drop_last() =~= odv.take(k as int));
                assert(odv.take(k + 1 as int).last() == odv[k as int]);
                assert(odv[k as int] == req.options@[k as int]@);
            }
            if !t.is_empty() {
                let ghost pre = opts.deep_view();
                opts.push(t.to_owned());
                proof {
                    assert(opts.deep_view() =~= pre.push(trim_spec(odv[k as int])));
                }
            }
            k = k + 1;
        }
        proof {
            assert(odv.take(n as int) =~= odv);
        }
        if title_t.is_empty() || opts.len() < 2 {
            return Err(PollError::Validation);
        }
        let delta = match req.expires_in_minutes.checked_mul(60000) {
            Some(d) => d,
            None => {
                return Err(PollError::Validation);
            },
        };
        let expires_at = match now.checked_add(delta) {
            Some(e) => e,
            None => {
                return Err(PollError::Validation);
            },
        };
        if self.next_poll_id == u64::MAX {
            return Err(PollError::Storage);
        }
        let id = self.next_poll_id;
        if self.single_active {
            self.votes.clear();
            self.polls.clear();
        }
        let poll = Poll {
            id,
            title: title_t.to_owned(),
            options: opts,
            expires_at,
            created_at: now,
        };
        let ret = clone_poll(&poll);
        let ghost pm = poll@;
        self.polls.push(poll);
        self.next_poll_id = id + 1;
        proof {
            let out = create_poll_model(
                old(self)@,
                req.title@,
                odv,
                req.expires_in_minutes,
                now,
            );
            assert(pm == out.1->Ok_0);
            if self.single_active {
                assert(self@.polls =~= seq![pm]);
                assert(self@.votes =~= Seq::<VoteModel>::empty());
            } else {
                assert(self@.polls =~= old(self)@.polls.push(pm));
                assert(self@.votes =~= old(self)@.votes);
            }
            assert(self@ =~= out.0);
        }
        Ok(ret)
    }

    /// Records one vote for `voter_identifier` on the designated poll,
    /// unless the poll is missing or expired, the index is out of range,
    /// or this voter already voted on it. Exactly one vote is appended on
    /// success; nothing changes on any failure.
    pub fn submit_vote(
        &mut self,
        poll_ref: PollRef,
        voter_identifier: String,
        option_index: i32,
        now: i64,
    ) -> (r: Result<Vote, PollError>)
        requires
            store_inv(old(self)@),
        ensures
            store_inv(final(self)@),
            final(self)@ == submit_vote_model(
                old(self)@,
                poll_ref,
                voter_identifier@,
                option_index as int,
                now,
            ).0,
            vote_result_model(r) == submit_vote_model(
                old(self)@,
                poll_ref,
                voter_identifier@,
                option_index as int,
                now,
            ).1,
    {
        proof {
            lemma_submit_preserves_inv(
                old(self)@,
                poll_ref,
                voter_identifier@,
                option_index as int,
                now,
            );
        }
        let poll = match poll_ref {
            PollRef::Current => match self.get_current_poll() {
                Some(p) => p,
                None => {
                    return Err(PollError::NotFound);
                },
            },
            PollRef::Id(id) => match self.get_poll(id) {
                Ok(p) => p,
                Err(_) => {
                    return Err(PollError::NotFound);
                },
            },
        };
        if now >= poll.expires_at {
            return Err(PollError::Expired);
        }
        if option_index < 0 {
            return Err(PollError::InvalidOptionIndex);
        }
        let idx = option_index as usize;
        if idx >= poll.options.len() {
            return Err(PollError::InvalidOptionIndex);
        }
        if self.has_vote(poll.id, &voter_identifier) {
            return Err(PollError::AlreadyVoted);
        }
        if self.next_vote_id == u64::MAX {
            return Err(PollError::Storage);
        }
        let id = self.next_vote_id;
        let vote = Vote {
            id,
            poll_id: poll.id,
            option_index: idx,
            voter_identifier,
            created_at: now,
        };
        let ret = clone_vote(&vote);
        let ghost vm = vote@;
        self.votes.push(vote);
        self.next_vote_id = id + 1;
        proof {
            let out = submit_vote_model(
                old(self)@,
                poll_ref,
                vm.voter,
                option_index as int,
                now,
            );
            assert(vm == out.1->Ok_0);
            assert(self@.votes =~= old(self)@.votes.push(vm));
            assert(self@.polls =~= old(self)@.polls);
            assert(self@ =~= out.0);
        }
        Ok(ret)
    }
}

/// An exact copy of a vector of texts.
fn clone_string_vec(v: &Vec<String>) -> (r: Vec<String>)
    ensures
        r.deep_view() == v.deep_view(),
        r@.len() == v@.len(),
{
    let mut r: Vec<String> = Vec::new();
    let n = v.len();
    let mut i: usize = 0;
    while i < n
        invariant
            0 <= i <= n,
            n == v@.len(),
            r@.len() == i,
            forall|j: int| 0 <= j < i ==> r@[j] == v@[j],
        decreases n - i,
    {
        r.push(v[i].clone());
        i = i + 1;
    }
    proof {
        assert(r@ =~= v@);
        assert(r.deep_view() =~= v.deep_view());
    }
    r
}

/// An exact copy of a poll record.
pub fn clone_poll(p: &Poll) -> (r: Poll)
    ensures
        r@ == p@,
{
    let r = Poll {
        id: p.id,
        title: p.title.clone(),
        options: clone_string_vec(&p.options),
        expires_at: p.expires_at,
        created_at: p.created_at,
    };
    proof {
        assert(r@ =~= p@);
    }
    r
}

/// An exact copy of a vote record.
pub fn clone_vote(v: &Vote) -> (r: Vote)
    ensures
        r@ == v@,
{
    Vote {
        id: v.id,
        poll_id: v.poll_id,
        option_index: v.option_index,
        voter_identifier: v.voter_identifier.clone(),
        created_at: v.created_at,
    }
}

} // verus!
