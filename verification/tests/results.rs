use coinpoll::model::{CreatePoll, PollError, PollRef};
use coinpoll::store::PollStore;
use coinpoll::tally::{top_voted, ranked};

fn poll_req(title: &str, options: &[&str], minutes: i64) -> CreatePoll {
    CreatePoll {
        title: title.to_string(),
        options: options.iter().map(|o| o.to_string()).collect(),
        expires_in_minutes: minutes,
    }
}

#[test]
fn tally_counts_and_percentages() {
    let mut s = PollStore::new(true);
    s.create_poll(&poll_req("Best coin", &["BTC", "ETH"], 60), 0)
        .expect("creation should succeed");
    for (voter, idx) in [("A", 0), ("D", 1), ("E", 1)] {
        s.submit_vote(PollRef::Current, voter.to_string(), idx, 1)
            .expect("vote should succeed");
    }
    let t = s.tally(PollRef::Current).expect("tally should succeed");
    assert_eq!(t.total_votes, 3);
    assert_eq!(t.options.len(), 2);
    assert_eq!(t.options[0].text, "BTC");
    assert_eq!(t.options[0].votes, 1);
    assert_eq!(t.options[0].percent_tenths, 333); // 33.3%
    assert_eq!(t.options[1].text, "ETH");
    assert_eq!(t.options[1].votes, 2);
    assert_eq!(t.options[1].percent_tenths, 667); // 66.7%
    assert_eq!(t.options[0].votes + t.options[1].votes, t.total_votes);
}

#[test]
fn tally_zero_fills_unvoted_options() {
    let mut s = PollStore::new(true);
    s.create_poll(&poll_req("Best coin", &["BTC", "ETH", "SOL"], 60), 0)
        .expect("creation should succeed");
    s.submit_vote(PollRef::Current, "A".to_string(), 2, 1)
        .expect("vote should succeed");
    let t = s.tally(PollRef::Current).expect("tally should succeed");
    assert_eq!(t.options.len(), 3);
    assert_eq!(t.options[0].votes, 0);
    assert_eq!(t.options[1].votes, 0);
    assert_eq!(t.options[2].votes, 1);
    assert_eq!(t.options[0].percent_tenths, 0);
    assert_eq!(t.options[2].percent_tenths, 1000); // 100.0%
    assert_eq!(t.total_votes, 1);
}

#[test]
fn tally_without_votes_reports_zero_percent() {
    let mut s = PollStore::new(true);
    s.create_poll(&poll_req("Best coin", &["BTC", "ETH"], 60), 0)
        .expect("creation should succeed");
    let t = s.tally(PollRef::Current).expect("tally should succeed");
    assert_eq!(t.total_votes, 0);
    assert_eq!(t.options[0].votes, 0);
    assert_eq!(t.options[0].percent_tenths, 0);
    assert_eq!(t.options[1].percent_tenths, 0);
}

#[test]
fn tally_half_splits_round_half_up() {
    let mut s = PollStore::new(true);
    s.create_poll(&poll_req("Best coin", &["BTC", "ETH"], 60), 0)
        .expect("creation should succeed");
    s.submit_vote(PollRef::Current, "A".to_string(), 0, 1).unwrap();
    s.submit_vote(PollRef::Current, "B".to_string(), 1, 1).unwrap();
    let t = s.tally(PollRef::Current).unwrap();
    assert_eq!(t.options[0].percent_tenths, 500); // 50.0%
    assert_eq!(t.options[1].percent_tenths, 500);
}

#[test]
fn tally_missing_poll_not_found() {
    let s = PollStore::new(true);
    assert_eq!(s.tally(PollRef::Current).unwrap_err(), PollError::NotFound);
    assert_eq!(s.tally(PollRef::Id(3)).unwrap_err(), PollError::NotFound);
}

#[test]
fn top_voted_orders_by_votes_desc() {
    let mut s = PollStore::new(true);
    s.create_poll(&poll_req("Best coin", &["BTC", "ETH", "SOL", "DOT"], 60), 0)
        .expect("creation should succeed");
    let votes = [
        ("A", 1),
        ("B", 1),
        ("C", 1),
        ("D", 2),
        ("E", 2),
        ("F", 0),
        ("G", 3),
    ];
    for (voter, idx) in votes {
        s.submit_vote(PollRef::Current, voter.to_string(), idx, 1)
            .expect("vote should succeed");
    }
    let t = s.tally(PollRef::Current).unwrap();
    let top = top_voted(&t, 3);
    assert_eq!(top.len(), 3);
    assert_eq!(top[0].symbol, "ETH");
    assert_eq!(top[0].votes, 3);
    assert_eq!(top[1].symbol, "SOL");
    assert_eq!(top[1].votes, 2);
    assert_eq!(top[2].symbol, "BTC");
    assert_eq!(top[2].votes, 1);
}

#[test]
fn top_voted_with_limit_beyond_options_returns_all() {
    let mut s = PollStore::new(true);
    s.create_poll(&poll_req("Best coin", &["BTC", "ETH"], 60), 0)
        .expect("creation should succeed");
    s.submit_vote(PollRef::Current, "A".to_string(), 1, 1).unwrap();
    let t = s.tally(PollRef::Current).unwrap();
    let top = top_voted(&t, 3);
    assert_eq!(top.len(), 2);
    assert_eq!(top[0].symbol, "ETH");
    assert_eq!(top[1].symbol, "BTC");
}

#[test]
fn ranked_keeps_every_entry() {
    let mut s = PollStore::new(true);
    s.create_poll(&poll_req("Best coin", &["BTC", "ETH", "SOL"], 60), 0)
        .expect("creation should succeed");
    s.submit_vote(PollRef::Current, "A".to_string(), 1, 1).unwrap();
    let t = s.tally(PollRef::Current).unwrap();
    let all = ranked(&t);
    assert_eq!(all.len(), 3);
    assert_eq!(all[0].symbol, "ETH");
    assert!(all[1].votes == 0 && all[2].votes == 0);
    let mut names: Vec<String> = all.iter().map(|r| r.symbol.clone()).collect();
    names.sort();
    assert_eq!(names, vec!["BTC".to_string(), "ETH".to_string(), "SOL".to_string()]);
}
