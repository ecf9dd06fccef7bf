use coinpoll::model::{CreatePoll, PollError, PollRef};
use coinpoll::store::PollStore;

fn poll_req(title: &str, options: &[&str], minutes: i64) -> CreatePoll {
    CreatePoll {
        title: title.to_string(),
        options: options.iter().map(|o| o.to_string()).collect(),
        expires_in_minutes: minutes,
    }
}

#[test]
fn create_poll_returns_poll_with_id_and_options() {
    let mut s = PollStore::new(true);
    let poll = s
        .create_poll(&poll_req("Best coin", &["BTC", "ETH"], 60), 1_000)
        .expect("creation should succeed");
    assert_eq!(poll.title, "Best coin");
    assert_eq!(poll.options, vec!["BTC".to_string(), "ETH".to_string()]);
    assert_eq!(poll.created_at, 1_000);
    assert_eq!(poll.expires_at, 1_000 + 60 * 60_000);
    let current = s.get_current_poll().expect("current poll should exist");
    assert_eq!(current.id, poll.id);
}

#[test]
fn create_poll_trims_title_and_options() {
    let mut s = PollStore::new(true);
    let poll = s
        .create_poll(&poll_req("  Best coin \t", &[" BTC ", "\nETH", "   ", ""], 60), 0)
        .expect("creation should succeed");
    assert_eq!(poll.title, "Best coin");
    assert_eq!(poll.options, vec!["BTC".to_string(), "ETH".to_string()]);
}

#[test]
fn create_poll_rejects_empty_title() {
    let mut s = PollStore::new(true);
    let r = s.create_poll(&poll_req("   ", &["BTC", "ETH"], 60), 0);
    assert_eq!(r.unwrap_err(), PollError::Validation);
    assert!(s.get_current_poll().is_none());
}

#[test]
fn create_poll_rejects_fewer_than_two_usable_options() {
    let mut s = PollStore::new(true);
    let r = s.create_poll(&poll_req("Best coin", &["BTC", "  ", ""], 60), 0);
    assert_eq!(r.unwrap_err(), PollError::Validation);
    let r = s.create_poll(&poll_req("Best coin", &[], 60), 0);
    assert_eq!(r.unwrap_err(), PollError::Validation);
}

#[test]
fn create_poll_rejects_expiry_out_of_clock_range() {
    let mut s = PollStore::new(true);
    let r = s.create_poll(&poll_req("Best coin", &["BTC", "ETH"], i64::MAX), 0);
    assert_eq!(r.unwrap_err(), PollError::Validation);
}

#[test]
fn create_poll_reports_spent_id_space_as_storage_error() {
    let mut s = PollStore::new(true);
    s.next_poll_id = u64::MAX;
    let r = s.create_poll(&poll_req("Best coin", &["BTC", "ETH"], 60), 0);
    assert_eq!(r.unwrap_err(), PollError::Storage);
}

#[test]
fn replacement_resets_votes_and_current_poll() {
    let mut s = PollStore::new(true);
    let first = s
        .create_poll(&poll_req("Best coin", &["BTC", "ETH"], 60), 0)
        .expect("creation should succeed");
    s.submit_vote(PollRef::Current, "A".to_string(), 0, 1)
        .expect("vote should succeed");
    let second = s
        .create_poll(&poll_req("Best chain", &["SOL", "DOT"], 60), 2)
        .expect("creation should succeed");
    assert_ne!(first.id, second.id);
    let current = s.get_current_poll().expect("current poll should exist");
    assert_eq!(current.id, second.id);
    assert_eq!(current.title, "Best chain");
    // The first poll and its votes are gone.
    assert_eq!(s.get_poll(first.id).unwrap_err(), PollError::NotFound);
    assert_eq!(s.tally(PollRef::Id(first.id)).unwrap_err(), PollError::NotFound);
    let t = s.tally(PollRef::Current).expect("tally should succeed");
    assert_eq!(t.total_votes, 0);
    // The old voter can vote again on the new poll.
    s.submit_vote(PollRef::Current, "A".to_string(), 1, 3)
        .expect("vote on the new poll should succeed");
}

#[test]
fn multi_poll_mode_keeps_older_polls() {
    let mut s = PollStore::new(false);
    let first = s
        .create_poll(&poll_req("Best coin", &["BTC", "ETH"], 60), 0)
        .expect("creation should succeed");
    s.submit_vote(PollRef::Id(first.id), "A".to_string(), 0, 1)
        .expect("vote should succeed");
    let second = s
        .create_poll(&poll_req("Best chain", &["SOL", "DOT"], 60), 2)
        .expect("creation should succeed");
    // Both polls remain, the newer one is current.
    assert_eq!(s.get_poll(first.id).unwrap().title, "Best coin");
    assert_eq!(s.get_current_poll().unwrap().id, second.id);
    // The older poll's vote survives.
    let t = s.tally(PollRef::Id(first.id)).unwrap();
    assert_eq!(t.total_votes, 1);
}

#[test]
fn vote_succeeds_once_then_already_voted() {
    let mut s = PollStore::new(true);
    s.create_poll(&poll_req("Best coin", &["BTC", "ETH"], 60), 0)
        .expect("creation should succeed");
    let vote = s
        .submit_vote(PollRef::Current, "A".to_string(), 0, 1)
        .expect("first vote should succeed");
    assert_eq!(vote.option_index, 0);
    assert_eq!(vote.voter_identifier, "A");
    assert_eq!(vote.created_at, 1);
    // Same voter, different option, same poll: rejected.
    let r = s.submit_vote(PollRef::Current, "A".to_string(), 1, 2);
    assert_eq!(r.unwrap_err(), PollError::AlreadyVoted);
    // The stored vote is unchanged.
    let t = s.tally(PollRef::Current).unwrap();
    assert_eq!(t.options[0].votes, 1);
    assert_eq!(t.options[1].votes, 0);
    assert_eq!(t.total_votes, 1);
}

#[test]
fn repeated_submissions_store_exactly_one_vote() {
    let mut s = PollStore::new(true);
    s.create_poll(&poll_req("Best coin", &["BTC", "ETH"], 60), 0)
        .expect("creation should succeed");
    let mut ok = 0;
    let mut already = 0;
    for i in 0..5 {
        match s.submit_vote(PollRef::Current, "A".to_string(), i % 2, 1 + i as i64) {
            Ok(_) => ok += 1,
            Err(PollError::AlreadyVoted) => already += 1,
            Err(e) => panic!("unexpected error {:?}", e),
        }
    }
    assert_eq!(ok, 1);
    assert_eq!(already, 4);
    assert_eq!(s.tally(PollRef::Current).unwrap().total_votes, 1);
}

#[test]
fn vote_with_out_of_range_index_rejected() {
    let mut s = PollStore::new(true);
    s.create_poll(&poll_req("Best coin", &["BTC", "ETH"], 60), 0)
        .expect("creation should succeed");
    let r = s.submit_vote(PollRef::Current, "B".to_string(), 5, 1);
    assert_eq!(r.unwrap_err(), PollError::InvalidOptionIndex);
    let r = s.submit_vote(PollRef::Current, "B".to_string(), -1, 1);
    assert_eq!(r.unwrap_err(), PollError::InvalidOptionIndex);
    // The index is checked even for a voter who already voted.
    s.submit_vote(PollRef::Current, "B".to_string(), 0, 1)
        .expect("valid vote should succeed");
    let r = s.submit_vote(PollRef::Current, "B".to_string(), 5, 1);
    assert_eq!(r.unwrap_err(), PollError::InvalidOptionIndex);
}

#[test]
fn vote_after_expiry_rejected() {
    let mut s = PollStore::new(true);
    s.create_poll(&poll_req("Best coin", &["BTC", "ETH"], 60), 0)
        .expect("creation should succeed");
    // A fresh voter, exactly at the deadline: rejected.
    let r = s.submit_vote(PollRef::Current, "C".to_string(), 0, 60 * 60_000);
    assert_eq!(r.unwrap_err(), PollError::Expired);
    // Well after the deadline too, and before any other check would pass.
    let r = s.submit_vote(PollRef::Current, "C".to_string(), 0, 60 * 60_000 + 1);
    assert_eq!(r.unwrap_err(), PollError::Expired);
    // Just before the deadline the vote goes through.
    s.submit_vote(PollRef::Current, "C".to_string(), 0, 60 * 60_000 - 1)
        .expect("vote before the deadline should succeed");
}

#[test]
fn expired_poll_still_queryable_for_results() {
    let mut s = PollStore::new(true);
    s.create_poll(&poll_req("Best coin", &["BTC", "ETH"], 1), 0)
        .expect("creation should succeed");
    s.submit_vote(PollRef::Current, "A".to_string(), 1, 100)
        .expect("vote should succeed");
    // Past the deadline: voting is closed, results are not.
    assert_eq!(
        s.submit_vote(PollRef::Current, "B".to_string(), 0, 60_000).unwrap_err(),
        PollError::Expired
    );
    let t = s.tally(PollRef::Current).expect("tally should still work");
    assert_eq!(t.total_votes, 1);
    assert_eq!(t.options[1].votes, 1);
}

#[test]
fn vote_without_poll_not_found() {
    let mut s = PollStore::new(true);
    let r = s.submit_vote(PollRef::Current, "A".to_string(), 0, 0);
    assert_eq!(r.unwrap_err(), PollError::NotFound);
    let r = s.submit_vote(PollRef::Id(7), "A".to_string(), 0, 0);
    assert_eq!(r.unwrap_err(), PollError::NotFound);
}

#[test]
fn vote_id_space_spent_reports_storage_error() {
    let mut s = PollStore::new(true);
    s.create_poll(&poll_req("Best coin", &["BTC", "ETH"], 60), 0)
        .expect("creation should succeed");
    s.next_vote_id = u64::MAX;
    let r = s.submit_vote(PollRef::Current, "A".to_string(), 0, 1);
    assert_eq!(r.unwrap_err(), PollError::Storage);
}

#[test]
fn get_poll_by_id() {
    let mut s = PollStore::new(false);
    let a = s.create_poll(&poll_req("One", &["x", "y"], 60), 0).unwrap();
    let b = s.create_poll(&poll_req("Two", &["p", "q"], 60), 1).unwrap();
    assert_eq!(s.get_poll(a.id).unwrap().title, "One");
    assert_eq!(s.get_poll(b.id).unwrap().title, "Two");
    assert_eq!(s.get_poll(b.id + 1).unwrap_err(), PollError::NotFound);
}

#[test]
fn vote_request_carries_the_raw_index() {
    let req = coinpoll::model::VoteRequest { option_index: -3 };
    let mut s = PollStore::new(true);
    s.create_poll(&poll_req("Best coin", &["BTC", "ETH"], 60), 0)
        .expect("creation should succeed");
    let r = s.submit_vote(PollRef::Current, "A".to_string(), req.option_index, 1);
    assert_eq!(r.unwrap_err(), PollError::InvalidOptionIndex);
}

#[test]
fn current_poll_none_when_empty() {
    let s = PollStore::new(true);
    assert!(s.get_current_poll().is_none());
}

#[test]
fn clock_backed_operations_agree_with_the_core() {
    let mut s = PollStore::new(true);
    let (created_now, r) = s.create_poll_now(&poll_req("Best coin", &["BTC", "ETH"], 60));
    assert!(created_now >= 0);
    let poll = r.expect("creation should succeed");
    assert_eq!(poll.created_at, created_now);
    assert_eq!(poll.expires_at, created_now + 60 * 60_000);
    let (vote_now, r) = s.submit_vote_now(PollRef::Current, "A".to_string(), 0);
    assert!(vote_now >= created_now);
    let vote = r.expect("vote before the deadline should succeed");
    assert_eq!(vote.created_at, vote_now);
}
