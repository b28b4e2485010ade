use anchor_lang::solana_program::pubkey::Pubkey;
use vote_program::address::{ballot_address, receipt_address, to_le_bytes};
use vote_program::program::{create_vote, initialize_votes, same_address, vote, Ledger};
use vote_program::state::{CastVote, CreateVote, InitializeVotes, Votes, VotingErr};

const PROGRAM: [u8; 32] = [9u8; 32];
const NOW: i64 = 1_700_000_000;
const ALICE: [u8; 32] = [1u8; 32];
const BOB: [u8; 32] = [2u8; 32];

fn names(list: &[&str]) -> Vec<String> {
    list.iter().map(|s| s.to_string()).collect()
}

fn ready() -> Ledger {
    let mut ledger = Ledger::new(PROGRAM);
    initialize_votes(&mut ledger, &InitializeVotes { user: ALICE }).unwrap();
    ledger
}

fn open_ballot(ledger: &mut Ledger, topic: &str, options: &[&str], days: i32, now: i64) -> [u8; 32] {
    create_vote(ledger, &CreateVote { user: ALICE }, topic.to_string(), names(options), days, now).unwrap();
    ledger.vote_accounts.last().unwrap().address
}

fn counts(ledger: &Ledger, k: usize) -> Vec<u64> {
    ledger.vote_accounts[k].account.options.iter().map(|o| o.votes).collect()
}

#[test]
fn lunch_scenario() {
    let mut ledger = ready();
    let ballot = open_ballot(&mut ledger, "Lunch", &["Pizza", "Salad"], 1, NOW);
    let a = CastVote { vote_account: ballot, user: ALICE };
    assert_eq!(vote(&mut ledger, &a, 0, NOW + 60), Ok(()));
    assert_eq!(ledger.vote_accounts[0].account.options[0].votes, 1);
    assert_eq!(vote(&mut ledger, &a, 0, NOW + 120), Err(VotingErr::AlreadyVoted));
    assert_eq!(counts(&ledger, 0), vec![1, 0]);
    let b = CastVote { vote_account: ballot, user: BOB };
    assert_eq!(vote(&mut ledger, &b, 5, NOW + 180), Err(VotingErr::InvalidOption));
    assert_eq!(counts(&ledger, 0), vec![1, 0]);
}

#[test]
fn initialize_sets_zero_and_refuses_twice() {
    let mut ledger = Ledger::new(PROGRAM);
    assert_eq!(initialize_votes(&mut ledger, &InitializeVotes { user: ALICE }), Ok(()));
    assert_eq!(ledger.votes_account, Some(Votes { number_of_votes: 0 }));
    assert_eq!(
        initialize_votes(&mut ledger, &InitializeVotes { user: BOB }),
        Err(VotingErr::AlreadyExists)
    );
    assert_eq!(ledger.votes_account, Some(Votes { number_of_votes: 0 }));
}

#[test]
fn registry_counts_ballots_at_distinct_addresses() {
    let mut ledger = ready();
    let mut seen: Vec<[u8; 32]> = Vec::new();
    for n in 1..=4u64 {
        let address = open_ballot(&mut ledger, "Topic", &["Yes", "No"], 2, NOW);
        assert_eq!(ledger.votes_account.unwrap().number_of_votes, n);
        assert!(!seen.contains(&address));
        seen.push(address);
    }
    assert_eq!(ledger.vote_accounts.len(), 4);
}

#[test]
fn ballot_address_is_the_program_derived_address() {
    let program = Pubkey::new_from_array(PROGRAM);
    let (expected, _) = Pubkey::find_program_address(&[b"vote", &1u64.to_le_bytes()], &program);
    let derived = ballot_address(1, &PROGRAM).unwrap();
    assert_eq!(derived, expected.to_bytes());
    assert_ne!(derived, PROGRAM);
    let mut ledger = ready();
    assert_eq!(open_ballot(&mut ledger, "Lunch", &["Pizza"], 1, NOW), expected.to_bytes());
}

#[test]
fn receipt_address_is_the_program_derived_address() {
    let program = Pubkey::new_from_array(PROGRAM);
    let ballot = ballot_address(1, &PROGRAM).unwrap();
    let (expected, _) = Pubkey::find_program_address(&[&ballot, &ALICE], &program);
    assert_eq!(receipt_address(&ballot, &ALICE, &PROGRAM), Some(expected.to_bytes()));
    assert_ne!(receipt_address(&ballot, &ALICE, &PROGRAM), receipt_address(&ballot, &BOB, &PROGRAM));
    let mut ledger = ready();
    let address = open_ballot(&mut ledger, "Lunch", &["Pizza"], 1, NOW);
    vote(&mut ledger, &CastVote { vote_account: address, user: ALICE }, 0, NOW).unwrap();
    assert_eq!(ledger.voter_accounts[0].address, expected.to_bytes());
}

#[test]
fn le_bytes_of_counter() {
    assert_eq!(to_le_bytes(1), vec![1, 0, 0, 0, 0, 0, 0, 0]);
    assert_eq!(to_le_bytes(0x0102_0304_0506_0708), vec![8, 7, 6, 5, 4, 3, 2, 1]);
    assert_eq!(to_le_bytes(u64::MAX), vec![255; 8]);
}

#[test]
fn same_address_compares_bytes() {
    let mut other = ALICE;
    assert!(same_address(&ALICE, &other));
    other[31] = 7;
    assert!(!same_address(&ALICE, &other));
}

#[test]
fn deadline_is_now_plus_days() {
    let mut ledger = ready();
    open_ballot(&mut ledger, "Week", &["A"], 3, 1000);
    assert_eq!(ledger.vote_accounts[0].account.voting_deadline, 1000 + 3 * 86400);
    open_ballot(&mut ledger, "Past", &["A"], -2, 1000);
    assert_eq!(ledger.vote_accounts[1].account.voting_deadline, 1000 - 172800);
    open_ballot(&mut ledger, "Long", &["A"], i32::MAX, 0);
    assert_eq!(ledger.vote_accounts[2].account.voting_deadline, 185_542_587_100_800);
}

#[test]
fn created_ballot_keeps_topic_and_option_order() {
    let mut ledger = ready();
    open_ballot(&mut ledger, "Lunch", &["Pizza", "Salad", "Soup"], 1, NOW);
    let account = &ledger.vote_accounts[0].account;
    assert_eq!(account.topic, "Lunch");
    let got: Vec<&str> = account.options.iter().map(|o| o.name.as_str()).collect();
    assert_eq!(got, vec!["Pizza", "Salad", "Soup"]);
    assert_eq!(counts(&ledger, 0), vec![0, 0, 0]);
}

#[test]
fn create_without_registry_is_refused() {
    let mut ledger = Ledger::new(PROGRAM);
    let r = create_vote(&mut ledger, &CreateVote { user: ALICE }, "T".to_string(), names(&["A"]), 1, NOW);
    assert_eq!(r, Err(VotingErr::AccountNotFound));
    assert!(ledger.vote_accounts.is_empty());
}

#[test]
fn create_refuses_bad_option_counts() {
    let mut ledger = ready();
    let none = create_vote(&mut ledger, &CreateVote { user: ALICE }, "T".to_string(), Vec::new(), 1, NOW);
    assert_eq!(none, Err(VotingErr::NoOptions));
    let eleven: Vec<String> = (0..11).map(|i| format!("option {}", i)).collect();
    let many = create_vote(&mut ledger, &CreateVote { user: ALICE }, "T".to_string(), eleven, 1, NOW);
    assert_eq!(many, Err(VotingErr::TooManyOptions));
    let ten: Vec<String> = (0..10).map(|i| format!("option {}", i)).collect();
    let full = create_vote(&mut ledger, &CreateVote { user: ALICE }, "T".to_string(), ten, 1, NOW);
    assert_eq!(full, Ok(()));
    assert_eq!(ledger.votes_account.unwrap().number_of_votes, 1);
}

#[test]
fn create_refuses_deadline_overflow() {
    let mut ledger = ready();
    let r = create_vote(&mut ledger, &CreateVote { user: ALICE }, "T".to_string(), names(&["A"]), 1, i64::MAX - 10);
    assert_eq!(r, Err(VotingErr::ArithmeticOverflow));
    let r = create_vote(&mut ledger, &CreateVote { user: ALICE }, "T".to_string(), names(&["A"]), -1, i64::MIN + 10);
    assert_eq!(r, Err(VotingErr::ArithmeticOverflow));
    assert_eq!(ledger.votes_account.unwrap().number_of_votes, 0);
    assert!(ledger.vote_accounts.is_empty());
}

#[test]
fn vote_on_unknown_ballot_is_refused() {
    let mut ledger = ready();
    let r = vote(&mut ledger, &CastVote { vote_account: [3u8; 32], user: ALICE }, 0, NOW);
    assert_eq!(r, Err(VotingErr::AccountNotFound));
}

#[test]
fn second_vote_fails_with_any_index() {
    let mut ledger = ready();
    let ballot = open_ballot(&mut ledger, "Lunch", &["Pizza", "Salad", "Soup"], 1, NOW);
    let a = CastVote { vote_account: ballot, user: ALICE };
    vote(&mut ledger, &a, 1, NOW).unwrap();
    for index in 0..3u8 {
        assert_eq!(vote(&mut ledger, &a, index, NOW + 1), Err(VotingErr::AlreadyVoted));
    }
    assert_eq!(counts(&ledger, 0), vec![0, 1, 0]);
    assert_eq!(ledger.voter_accounts.len(), 1);
    assert_eq!(ledger.voter_accounts[0].voter.option_index, 1);
    assert!(ledger.voter_accounts[0].voter.voted);
}

#[test]
fn vote_counts_sum_to_receipts() {
    let mut ledger = ready();
    let first = open_ballot(&mut ledger, "Lunch", &["Pizza", "Salad"], 1, NOW);
    let second = open_ballot(&mut ledger, "Dinner", &["Fish", "Rice"], 1, NOW);
    for (user, index) in [([10u8; 32], 0u8), ([11u8; 32], 1), ([12u8; 32], 1)] {
        vote(&mut ledger, &CastVote { vote_account: first, user }, index, NOW).unwrap();
    }
    vote(&mut ledger, &CastVote { vote_account: second, user: [10u8; 32] }, 0, NOW).unwrap();
    assert_eq!(counts(&ledger, 0), vec![1, 2]);
    assert_eq!(counts(&ledger, 1), vec![1, 0]);
    let on_first = ledger.voter_accounts.iter().filter(|r| r.ballot == first).count() as u64;
    assert_eq!(counts(&ledger, 0).iter().sum::<u64>(), on_first);
}

#[test]
fn vote_at_deadline_is_over() {
    let mut ledger = ready();
    let ballot = open_ballot(&mut ledger, "Lunch", &["Pizza"], 1, NOW);
    let deadline = NOW + 86400;
    let a = CastVote { vote_account: ballot, user: ALICE };
    assert_eq!(vote(&mut ledger, &a, 0, deadline), Err(VotingErr::VotingIsOver));
    assert_eq!(vote(&mut ledger, &a, 0, deadline + 1), Err(VotingErr::VotingIsOver));
    assert_eq!(counts(&ledger, 0), vec![0]);
    assert_eq!(vote(&mut ledger, &a, 0, deadline - 1), Ok(()));
    assert_eq!(counts(&ledger, 0), vec![1]);
}

#[test]
fn option_index_boundary() {
    let mut ledger = ready();
    let ballot = open_ballot(&mut ledger, "Lunch", &["Pizza", "Salad"], 1, NOW);
    let a = CastVote { vote_account: ballot, user: ALICE };
    assert_eq!(vote(&mut ledger, &a, 2, NOW), Err(VotingErr::InvalidOption));
    assert_eq!(vote(&mut ledger, &a, 255, NOW), Err(VotingErr::InvalidOption));
    assert_eq!(vote(&mut ledger, &a, 1, NOW), Ok(()));
    assert_eq!(counts(&ledger, 0), vec![0, 1]);
}

#[test]
fn closed_check_comes_before_receipt_check() {
    let mut ledger = ready();
    let ballot = open_ballot(&mut ledger, "Lunch", &["Pizza"], 1, NOW);
    let a = CastVote { vote_account: ballot, user: ALICE };
    vote(&mut ledger, &a, 0, NOW).unwrap();
    assert_eq!(vote(&mut ledger, &a, 0, NOW + 86400), Err(VotingErr::VotingIsOver));
    assert_eq!(vote(&mut ledger, &a, 3, NOW), Err(VotingErr::InvalidOption));
}
