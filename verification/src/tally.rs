//! Result aggregation: per-option vote counts aligned with the poll's
//! options, a grand total, and percentages in tenths of a percent.

use crate::model::{PollError, PollModel, PollRef, VoteModel};
use crate::store::{
    find_poll_model, lemma_find_is_elem, lemma_find_unique, resolve_poll_model, store_inv,
    vote_wf, PollStore,
};
use vstd::pervasive::VecAdditionalExecFns;
use vstd::prelude::*;

verus! {

/// One option's share of the result: its text, its vote count, and its
/// percentage of the total, rounded to one decimal place and carried as
/// tenths of a percent (`333` reads as `33.3%`).
#[derive(Debug)]
pub struct OptionTally {
    pub text: String,
    pub votes: usize,
    pub percent_tenths: u64,
}

/// A poll's full result.
#[derive(Debug)]
pub struct TallyResult {
    pub options: Vec<OptionTally>,
    pub total_votes: usize,
}

/// How many stored votes chose option `idx` of poll `poll_id`.
pub open spec fn count_model(votes: Seq<VoteModel>, poll_id: u64, idx: int) -> nat
    decreases votes.len(),
{
    if votes.len() == 0 {
        0
    } else {
        count_model(votes.drop_last(), poll_id, idx) + if votes.last().poll_id == poll_id
            && votes.last().option_index == idx {
            1nat
        } else {
            0nat
        }
    }
}

/// The per-option counts for a poll with `n` options, in option order.
pub open spec fn counts_model(votes: Seq<VoteModel>, poll_id: u64, n: int) -> Seq<nat> {
    Seq::new(n as nat, |i: int| count_model(votes, poll_id, i))
}

/// How many stored votes belong to poll `poll_id` and name an option in
/// `[0, n)`.
pub open spec fn poll_vote_count(votes: Seq<VoteModel>, poll_id: u64, n: int) -> nat
    decreases votes.len(),
{
    if votes.len() == 0 {
        0
    } else {
        poll_vote_count(votes.drop_last(), poll_id, n) + if votes.last().poll_id == poll_id && 0
            <= votes.last().option_index < n {
            1nat
        } else {
            0nat
        }
    }
}

/// The sum of a sequence of counts.
pub open spec fn sum_model(s: Seq<nat>) -> nat
    decreases s.len(),
{
    if s.len() == 0 {
        0
    } else {
        sum_model(s.drop_last()) + s.last()
    }
}

/// `votes / total * 100`, rounded half-up to one decimal place and
/// expressed in tenths of a percent; zero when there are no votes at all.
pub open spec fn percent_tenths_model(votes: nat, total: nat) -> nat {
    if total > 0 {
        (votes * 1000 + total / 2) / total
    } else {
        0
    }
}

/// What a correct tally of poll `p` over `votes` looks like: one entry
/// per option in the poll's own order, each with its exact count and
/// percentage, and a total equal to the sum of the counts.
pub open spec fn tally_matches(t: TallyResult, p: PollModel, votes: Seq<VoteModel>) -> bool {
    let total = sum_model(counts_model(votes, p.id, p.options.len() as int));
    &&& t.options@.len() == p.options.len()
    &&& forall|i: int|
        0 <= i < p.options.len() ==> {
            let o = #[trigger] t.options@[i];
            o.text@ == p.options[i] && o.votes as nat == count_model(votes, p.id, i)
                && o.percent_tenths as nat == percent_tenths_model(
                count_model(votes, p.id, i),
                total,
            )
        }
    &&& t.total_votes as nat == total
}

/// Rewriting one slot of a sum trades its old value for the new one.
proof fn lemma_sum_update(s: Seq<nat>, i: int, v: nat)
    requires
        0 <= i < s.len(),
    ensures
        sum_model(s.update(i, v)) + s[i] == sum_model(s) + v,
    decreases s.len(),
{
    if i == s.len() - 1 {
        assert(s.update(i, v).drop_last() =~= s.drop_last());
    } else {
        assert(s.update(i, v).drop_last() =~= s.drop_last().update(i, v));
        lemma_sum_update(s.drop_last(), i, v);
    }
}

/// Summing the per-option counts counts each matching vote once: the sum
/// equals the number of votes for the poll with an index in range.
pub proof fn lemma_sum_counts(votes: Seq<VoteModel>, poll_id: u64, n: int)
    requires
        n >= 0,
    ensures
        sum_model(counts_model(votes, poll_id, n)) == poll_vote_count(votes, poll_id, n),
    decreases votes.len(),
{
    if votes.len() == 0 {
        assert(counts_model(votes, poll_id, n) =~= Seq::new(n as nat, |i: int| 0nat));
        lemma_sum_zeros(Seq::new(n as nat, |i: int| 0nat));
    } else {
        let prev = votes.drop_last();
        lemma_sum_counts(prev, poll_id, n);
        let v = votes.last();
        if v.poll_id == poll_id && 0 <= v.option_index < n {
            let idx = v.option_index;
            assert(counts_model(votes, poll_id, n) =~= counts_model(prev, poll_id, n).update(
                idx,
                count_model(prev, poll_id, idx) + 1,
            ));
            lemma_sum_update(
                counts_model(prev, poll_id, n),
                idx,
                count_model(prev, poll_id, idx) + 1,
            );
        } else {
            assert(counts_model(votes, poll_id, n) =~= counts_model(prev, poll_id, n));
        }
    }
}

/// A sequence of zeros sums to zero.
proof fn lemma_sum_zeros(s: Seq<nat>)
    requires
        forall|i: int| 0 <= i < s.len() ==> s[i] == 0nat,
    ensures
        sum_model(s) == 0,
    decreases s.len(),
{
    if s.len() > 0 {
        lemma_sum_zeros(s.drop_last());
    }
}

/// No poll can gather more matching votes than there are votes.
pub proof fn lemma_poll_count_le(votes: Seq<VoteModel>, poll_id: u64, n: int)
    ensures
        poll_vote_count(votes, poll_id, n) <= votes.len(),
    decreases votes.len(),
{
    if votes.len() > 0 {
        lemma_poll_count_le(votes.drop_last(), poll_id, n);
    }
}

/// A single vote for an option counts toward that option alone.
proof fn lemma_count_le_len(votes: Seq<VoteModel>, poll_id: u64, idx: int)
    ensures
        count_model(votes, poll_id, idx) <= votes.len(),
    decreases votes.len(),
{
    if votes.len() > 0 {
        lemma_count_le_len(votes.drop_last(), poll_id, idx);
    }
}

/// Extending a prefix sum by one slot adds that slot.
proof fn lemma_sum_take_step(s: Seq<nat>, j: int)
    requires
        0 <= j < s.len(),
    ensures
        sum_model(s.take(j + 1)) == sum_model(s.take(j)) + s[j],
{
    assert(s.take(j + 1).drop_last() =~= s.take(j));
}

/// A prefix never sums to more than the whole.
proof fn lemma_sum_take_le(s: Seq<nat>, j: int)
    requires
        0 <= j <= s.len(),
    ensures
        sum_model(s.take(j)) <= sum_model(s),
    decreases s.len() - j,
{
    if j == s.len() {
        assert(s.take(j) =~= s);
    } else {
        lemma_sum_take_step(s, j);
        lemma_sum_take_le(s, j + 1);
    }
}

/// No element exceeds the sum it belongs to.
proof fn lemma_elem_le_sum(s: Seq<nat>, i: int)
    requires
        0 <= i < s.len(),
    ensures
        s[i] <= sum_model(s),
    decreases s.len(),
{
    if i == s.len() - 1 {
    } else {
        lemma_elem_le_sum(s.drop_last(), i);
    }
}

/// A share of at most the whole rounds to at most one hundred percent.
proof fn lemma_percent_le(v: nat, t: nat)
    requires
        t > 0,
        v <= t,
    ensures
        (v * 1000 + t / 2) / t <= 1000,
{
    assert((v * 1000 + t / 2) / t <= 1000) by (nonlinear_arith)
        requires
            t > 0,
            v <= t,
    ;
}

/// One option's percentage of the total, in tenths of a percent.
fn percent_tenths(votes: usize, total: usize) -> (r: u64)
    requires
        votes <= total,
    ensures
        r as nat == percent_tenths_model(votes as nat, total as nat),
        r <= 1000,
{
    if total == 0 {
        0
    } else {
        let num: u128 = (votes as u128) * 1000 + (total as u128) / 2;
        let q: u128 = num / (total as u128);
        proof {
            lemma_percent_le(votes as nat, total as nat);
        }
        q as u64
    }
}

impl PollStore {
    /// The full result for the designated poll: a count and a percentage
    /// for every option, in the poll's own option order, with zero-vote
    /// options reported as zero rather than left out, and the total equal
    /// to the sum of the per-option counts.
    pub fn tally(&self, poll_ref: PollRef) -> (r: Result<TallyResult, PollError>)
        requires
            store_inv(self@),
        ensures
            match resolve_poll_model(self@, poll_ref) {
                None => r == Err::<TallyResult, PollError>(PollError::NotFound),
                Some(p) => r matches Ok(t) && tally_matches(t, p, self@.votes)
                    && t.total_votes as nat == poll_vote_count(
                    self@.votes,
                    p.id,
                    p.options.len() as int,
                ),
            },
    {
        let poll = match poll_ref {
            PollRef::Current => match self.get_current_poll() {
                Some(p) => p,
                None => {
                    return Err(PollError::NotFound);
                },
            },
            PollRef::Id(id) => match self.get_poll(id) {
                Ok(p) => p,
                Err(_) => {
                    return Err(PollError::NotFound);
                },
            },
        };
        proof {
            match poll_ref {
                PollRef::Current => {
                    lemma_find_unique(self@.polls, self@.polls.len() - 1);
                },
                PollRef::Id(id) => {
                    lemma_find_is_elem(self@.polls, id);
                },
            }
            assert(find_poll_model(self@.polls, poll@.id) == Some(poll@));
        }
        let n = poll.options.len();
        let mut counts: Vec<usize> = vec![0usize; n];
        let vn = self.votes.len();
        let mut k: usize = 0;
        while k < vn
            invariant
                0 <= k <= vn,
                vn == self.votes.len(),
                store_inv(self@),
                counts@.len() == n,
                n == poll@.options.len(),
                find_poll_model(self@.polls, poll@.id) == Some(poll@),
                forall|i: int|
                    0 <= i < n ==> #[trigger] counts@[i] as nat == count_model(
                        self@.votes.take(k as int),
                        poll@.id,
                        i,
                    ),
                forall|i: int| 0 <= i < n ==> #[trigger] counts@[i] <= k,
            decreases vn - k,
        {
            proof {
                assert(self@.votes.take(k + 1 as int).drop_last() =~= self@.votes.take(k as int));
                assert(self@.votes.take(k + 1 as int).last() == self@.votes[k as int]);
                assert(vote_wf(self@.votes[k as int], self@.polls));
            }
            if self.votes[k].poll_id == poll.id {
                let idx = self.votes[k].option_index;
                let c = counts[idx];
                counts.set(idx, c + 1);
            }
            k = k + 1;
        }
        proof {
            assert(self@.votes.take(vn as int) =~= self@.votes);
        }
        let ghost cm = counts_model(self@.votes, poll@.id, n as int);
        proof {
            assert(counts@.len() == cm.len());
            lemma_sum_counts(self@.votes, poll@.id, n as int);
            lemma_poll_count_le(self@.votes, poll@.id, n as int);
        }
        let mut total: usize = 0;
        let mut i: usize = 0;
        while i < n
            invariant
                0 <= i <= n,
                counts@.len() == n,
                cm.len() == n,
                forall|j: int| 0 <= j < n ==> #[trigger] counts@[j] as nat == cm[j],
                total as nat == sum_model(cm.take(i as int)),
                sum_model(cm) <= vn <= usize::MAX,
            decreases n - i,
        {
            proof {
                lemma_sum_take_step(cm, i as int);
                lemma_sum_take_le(cm, i + 1 as int);
            }
            total = total + counts[i];
            i = i + 1;
        }
        proof {
            assert(cm.take(n as int) =~= cm);
        }
        let mut out: Vec<OptionTally> = Vec::new();
        let mut i: usize = 0;
        while i < n
            invariant
                0 <= i <= n,
                counts@.len() == n,
                cm.len() == n,
                n == poll@.options.len(),
                poll.options@.len() == n,
                forall|j: int| 0 <= j < n ==> #[trigger] counts@[j] as nat == cm[j],
                total as nat == sum_model(cm),
                cm == counts_model(self@.votes, poll@.id, n as int),
                out@.len() == i,
                forall|j: int|
                    0 <= j < i ==> {
                        let o = #[trigger] out@[j];
                        o.text@ == poll@.options[j] && o.votes as nat == count_model(
                            self@.votes,
                            poll@.id,
                            j,
                        ) && o.percent_tenths as nat == percent_tenths_model(
                            count_model(self@.votes, poll@.id, j),
                            sum_model(cm),
                        )
                    },
            decreases n - i,
        {
            proof {
                lemma_elem_le_sum(cm, i as int);
            }
            let pct = percent_tenths(counts[i], total);
            out.push(
                OptionTally {
                    text: self_option_text(&poll.options, i),
                    votes: counts[i],
                    percent_tenths: pct,
                },
            );
            i = i + 1;
        }
        Ok(TallyResult { options: out, total_votes: total })
    }
}

/// An exact copy of one option's text.
fn self_option_text(options: &Vec<String>, i: usize) -> (r: String)
    requires
        i < options@.len(),
    ensures
        r@ == options.deep_view()[i as int],
{
    options[i].clone()
}

/// One option's standing in a ranking: its text and its vote count.
#[derive(Debug)]
pub struct PollResult {
    pub symbol: String,
    pub votes: usize,
}

/// A tally's options recast as ranking entries, in option order.
pub open spec fn tally_entries(t: TallyResult) -> Seq<PollResult> {
    Seq::new(
        t.options@.len(),
        |i: int| PollResult { symbol: t.options@[i].text, votes: t.options@[i].votes },
    )
}

/// Vote counts never increase along the sequence.
pub open spec fn votes_desc(s: Seq<PollResult>) -> bool {
    forall|i: int, j: int| 0 <= i <= j < s.len() ==> s[i].votes >= s[j].votes
}

/// An exact copy of a ranking entry.
fn clone_result(p: &PollResult) -> (r: PollResult)
    ensures
        r == *p,
{
    PollResult { symbol: p.symbol.clone(), votes: p.votes }
}

/// Ranks every option of a tally from most to least voted. The result
/// holds exactly the tally's entries; which of two equally voted options
/// comes first is not fixed.
pub fn ranked(t: &TallyResult) -> (r: Vec<PollResult>)
    ensures
        r@.to_multiset() == tally_entries(*t).to_multiset(),
        r@.len() == tally_entries(*t).len(),
        votes_desc(r@),
{
    broadcast use vstd::seq_lib::group_to_multiset_ensures;

    let ghost entries = tally_entries(*t);
    let n = t.options.len();
    let mut arr: Vec<PollResult> = Vec::new();
    let mut k: usize = 0;
    while k < n
        invariant
            0 <= k <= n,
            n == t.options@.len(),
            arr@.len() == k,
            forall|j: int| 0 <= j < k ==> arr@[j] == tally_entries(*t)[j],
        decreases n - k,
    {
        arr.push(
            PollResult { symbol: self_option_text_of(&t.options, k), votes: t.options[k].votes },
        );
        k = k + 1;
    }
    proof {
        assert(arr@ =~= entries);
    }
    let mut i: usize = 1;
    while i < arr.len()
        invariant
            arr@.len() == entries.len(),
            arr@.to_multiset() == entries.to_multiset(),
            i >= 1,
            forall|a: int, b: int| 0 <= a <= b < i ==> arr@[a].votes >= arr@[b].votes,
        decreases arr@.len() - i,
    {
        let mut j: usize = i;
        while j > 0 && arr[j - 1].votes < arr[j].votes
            invariant
                0 <= j <= i < arr@.len(),
                arr@.len() == entries.len(),
                arr@.to_multiset() == entries.to_multiset(),
                forall|a: int, b: int|
                    0 <= a <= b <= i && a != j && b != j ==> arr@[a].votes >= arr@[b].votes,
                forall|b: int| j < b <= i ==> arr@[j as int].votes >= arr@[b].votes,
            decreases j,
        {
            let ghost pre = arr@;
            let x = clone_result(&arr[j - 1]);
            let y = clone_result(&arr[j]);
            arr.set(j - 1, y);
            arr.set(j, x);
            proof {
                broadcast use vstd::multiset::group_multiset_axioms;

                let a = pre[j - 1 as int];
                let b = pre[j as int];
                let u1 = pre.update(j - 1 as int, b);
                let u2 = u1.update(j as int, a);
                assert(arr@ =~= u2);
                assert(u1[j as int] == b);
                vstd::seq_lib::to_multiset_update(pre, j - 1 as int, b);
                vstd::seq_lib::to_multiset_update(u1, j as int, a);
                vstd::seq_lib::to_multiset_contains(pre, a);
                assert(pre.contains(a));
                assert(pre.to_multiset().count(a) > 0);
                assert(arr@.to_multiset() =~= pre.to_multiset());
            }
            j = j - 1;
        }
        i = i + 1;
    }
    arr
}

/// The most voted options — at most `limit` of them, best first: the
/// head of a full ranking of the tally. Among equally voted options the
/// order is not fixed.
pub fn top_voted(t: &TallyResult, limit: usize) -> (r: Vec<PollResult>)
    ensures
        exists|full: Seq<PollResult>|
            full.to_multiset() == tally_entries(*t).to_multiset() && full.len() == tally_entries(
                *t,
            ).len() && votes_desc(full) && r@ == full.take(
                if limit as int <= full.len() {
                    limit as int
                } else {
                    full.len() as int
                },
            ),
{
    let mut full = ranked(t);
    let ghost fullseq = full@;
    full.truncate(limit);
    proof {
        assert(full@ =~= fullseq.take(
            if limit as int <= fullseq.len() {
                limit as int
            } else {
                fullseq.len() as int
            },
        ));
    }
    full
}

/// An exact copy of one option's text.
fn self_option_text_of(options: &Vec<OptionTally>, i: usize) -> (r: String)
    requires
        i < options@.len(),
    ensures
        r@ == options@[i as int].text@,
        r == options@[i as int].text,
{
    options[i].text.clone()
}

} // verus!
