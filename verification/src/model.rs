//! Data model: polls, votes, requests, the error taxonomy, and the
//! whitespace-trimming rules that validation is stated against.

use vstd::prelude::*;

verus! {

/// A published poll. Immutable once created; `options` keeps insertion
/// order, which defines each option's index.
#[derive(Debug)]
pub struct Poll {
    pub id: u64,
    pub title: String,
    pub options: Vec<String>,
    /// Milliseconds; a vote arriving at `now >= expires_at` is rejected.
    pub expires_at: i64,
    /// Milliseconds; assigned by the store at insert time.
    pub created_at: i64,
}

/// A single voter's recorded choice on one poll.
#[derive(Debug)]
pub struct Vote {
    pub id: u64,
    pub poll_id: u64,
    pub option_index: usize,
    /// Opaque deduplication key; the boundary layer chooses its source.
    pub voter_identifier: String,
    pub created_at: i64,
}

/// Request payload for creating a poll.
#[derive(Debug)]
pub struct CreatePoll {
    pub title: String,
    pub options: Vec<String>,
    pub expires_in_minutes: i64,
}

/// Request payload for casting a vote; the index is still unvalidated.
#[derive(Debug)]
pub struct VoteRequest {
    pub option_index: i32,
}

/// How a caller designates the poll a vote or a tally is for.
#[derive(Clone, Copy, Debug, PartialEq, Eq, Structural)]
pub enum PollRef {
    /// The most recently created poll.
    Current,
    /// An explicit poll identifier.
    Id(u64),
}

/// The single tagged error type every operation reports through.
#[derive(Clone, Copy, Debug, PartialEq, Eq, Structural)]
pub enum PollError {
    /// Empty title after trimming, or fewer than two usable options, or an
    /// expiry that does not fit the clock's range.
    Validation,
    /// The designated poll does not exist.
    NotFound,
    /// The poll's deadline has passed.
    Expired,
    /// The option index is outside `[0, options.len())`.
    InvalidOptionIndex,
    /// This voter already has a vote on this poll.
    AlreadyVoted,
    /// The store cannot accept the record (its identifier space is spent).
    Storage,
}

/// Mathematical image of a `Poll`.
pub ghost struct PollModel {
    pub id: u64,
    pub title: Seq<char>,
    pub options: Seq<Seq<char>>,
    pub expires_at: i64,
    pub created_at: i64,
}

/// Mathematical image of a `Vote`.
pub ghost struct VoteModel {
    pub id: u64,
    pub poll_id: u64,
    pub option_index: int,
    pub voter: Seq<char>,
    pub created_at: i64,
}

impl View for Poll {
    type V = PollModel;

    open spec fn view(&self) -> PollModel {
        PollModel {
            id: self.id,
            title: self.title@,
            options: self.options.deep_view(),
            expires_at: self.expires_at,
            created_at: self.created_at,
        }
    }
}

impl View for Vote {
    type V = VoteModel;

    open spec fn view(&self) -> VoteModel {
        VoteModel {
            id: self.id,
            poll_id: self.poll_id,
            option_index: self.option_index as int,
            voter: self.voter_identifier@,
            created_at: self.created_at,
        }
    }
}

/// The whitespace that trimming strips from either end of a text.
pub open spec fn is_space_char(c: char) -> bool {
    c == ' ' || c == '\t' || c == '\n' || c == '\r'
}

/// What is left of `s` after stripping leading and trailing whitespace.
pub open spec fn trim_spec(s: Seq<char>) -> Seq<char>
    decreases s.len(),
{
    if s.len() == 0 {
        s
    } else if is_space_char(s[0]) {
        trim_spec(s.drop_first())
    } else if is_space_char(s.last()) {
        trim_spec(s.drop_last())
    } else {
        s
    }
}

/// A text that survives validation: non-empty and already trimmed.
pub open spec fn clean_text(s: Seq<char>) -> bool {
    s.len() > 0 && trim_spec(s) == s
}

/// The options kept from a creation request: each entry trimmed, empty
/// entries dropped, original order preserved.
pub open spec fn clean_options(opts: Seq<Seq<char>>) -> Seq<Seq<char>>
    decreases opts.len(),
{
    if opts.len() == 0 {
        Seq::empty()
    } else {
        let rest = clean_options(opts.drop_last());
        let t = trim_spec(opts.last());
        if t.len() > 0 {
            rest.push(t)
        } else {
            rest
        }
    }
}

/// Every poll the store accepts satisfies this: a clean title and at
/// least two clean options.
pub open spec fn poll_wf(p: PollModel) -> bool {
    &&& clean_text(p.title)
    &&& p.options.len() >= 2
    &&& forall|i: int| 0 <= i < p.options.len() ==> clean_text(#[trigger] p.options[i])
}

/// Stripping a span of whitespace from each end is exactly `trim_spec`.
proof fn lemma_trim_subrange(s: Seq<char>, lo: int, hi: int)
    requires
        0 <= lo <= hi <= s.len(),
        forall|i: int| 0 <= i < lo ==> is_space_char(#[trigger] s[i]),
        forall|i: int| hi <= i < s.len() ==> is_space_char(#[trigger] s[i]),
        lo == hi || (!is_space_char(s[lo]) && !is_space_char(s[hi - 1])),
    ensures
        trim_spec(s) == s.subrange(lo, hi),
    decreases s.len(),
{
    if s.len() == 0 {
        assert(s.subrange(lo, hi) =~= s);
    } else if is_space_char(s[0]) {
        let (lo2, hi2) = if lo == hi {
            (0int, 0int)
        } else {
            (lo - 1, hi - 1)
        };
        lemma_trim_subrange(s.drop_first(), lo2, hi2);
        assert(s.drop_first().subrange(lo2, hi2) =~= s.subrange(lo, hi));
    } else if is_space_char(s.last()) {
        assert(lo == 0);
        assert(0 < hi < s.len());
        lemma_trim_subrange(s.drop_last(), 0, hi);
        assert(s.drop_last().subrange(0, hi) =~= s.subrange(lo, hi));
    } else {
        assert(lo == 0 && hi == s.len());
        assert(s.subrange(0, s.len() as int) =~= s);
    }
}

/// A non-empty trimmed text has no whitespace at either end.
proof fn lemma_trim_ends(s: Seq<char>)
    ensures
        trim_spec(s).len() > 0 ==> !is_space_char(trim_spec(s)[0]) && !is_space_char(
            trim_spec(s).last(),
        ),
    decreases s.len(),
{
    if s.len() == 0 {
    } else if is_space_char(s[0]) {
        lemma_trim_ends(s.drop_first());
    } else if is_space_char(s.last()) {
        lemma_trim_ends(s.drop_last());
    }
}

/// Trimming is idempotent: a trimmed text is its own trim.
pub proof fn lemma_trim_idempotent(s: Seq<char>)
    ensures
        trim_spec(trim_spec(s)) == trim_spec(s),
{
    lemma_trim_ends(s);
    if trim_spec(s).len() > 0 {
    }
}

/// Every option kept by cleaning is non-empty and already trimmed.
pub proof fn lemma_clean_options_clean(opts: Seq<Seq<char>>)
    ensures
        forall|i: int|
            0 <= i < clean_options(opts).len() ==> clean_text(#[trigger] clean_options(opts)[i]),
    decreases opts.len(),
{
    if opts.len() > 0 {
        lemma_clean_options_clean(opts.drop_last());
        lemma_trim_idempotent(opts.last());
        let rest = clean_options(opts.drop_last());
        let t = trim_spec(opts.last());
        assert forall|i: int| 0 <= i < clean_options(opts).len() implies clean_text(
            #[trigger] clean_options(opts)[i],
        ) by {
            if t.len() > 0 {
                assert(clean_options(opts) == rest.push(t));
                if i < rest.len() {
                    assert(clean_options(opts)[i] == rest[i]);
                } else {
                    assert(clean_options(opts)[i] == t);
                }
            } else {
                assert(clean_options(opts) == rest);
            }
        }
    }
}

/// Whether `c` counts as whitespace for trimming.
pub fn is_space(c: char) -> (r: bool)
    ensures
        r == is_space_char(c),
{
    c == ' ' || c == '\t' || c == '\n' || c == '\r'
}

/// Strips leading and trailing whitespace from `s`.
pub fn trim_str<'a>(s: &'a str) -> (r: &'a str)
    ensures
        r@ == trim_spec(s@),
{
    let n = s.unicode_len();
    let mut lo: usize = 0;
    while lo < n && is_space(s.get_char(lo))
        invariant
            0 <= lo <= n,
            n == s@.len(),
            forall|i: int| 0 <= i < lo ==> is_space_char(#[trigger] s@[i]),
        decreases n - lo,
    {
        lo = lo + 1;
    }
    let mut hi: usize = n;
    while hi > lo && is_space(s.get_char(hi - 1))
        invariant
            lo <= hi <= n,
            n == s@.len(),
            forall|i: int| hi <= i < n ==> is_space_char(#[trigger] s@[i]),
        decreases hi,
    {
        hi = hi - 1;
    }
    let r = s.substring_char(lo, hi);
    proof {
        lemma_trim_subrange(s@, lo as int, hi as int);
    }
    r
}

} // verus!
